use vstd::prelude::*;
use vstd::string::StrSliceExecFns;

verus! {

/// ASCII whitespace, which separates the fields of a line.
pub open spec fn is_space(c: char) -> bool {
    c == ' ' || c == '\t' || c == '\n' || c == '\r' || c == '\x0b' || c == '\x0c'
}

/// The whitespace-separated fields of `s`, in order.
pub open spec fn fields(s: Seq<char>) -> Seq<Seq<char>>
    decreases s.len(),
{
    if s.len() == 0 {
        seq![]
    } else {
        let prev = fields(s.drop_last());
        let c = s.last();
        if is_space(c) {
            prev
        } else if s.len() >= 2 && !is_space(s[s.len() - 2]) {
            prev.update(prev.len() - 1, prev.last().push(c))
        } else {
            prev.push(seq![c])
        }
    }
}

proof fn lemma_fields_nonempty(s: Seq<char>)
    requires
        s.len() > 0,
        !is_space(s.last()),
    ensures
        fields(s).len() > 0,
    decreases s.len(),
{
    if s.len() >= 2 && !is_space(s[s.len() - 2]) {
        assert(s.drop_last().last() == s[s.len() - 2]);
        lemma_fields_nonempty(s.drop_last());
    }
}

/// The text before the first line break.
pub open spec fn first_line(s: Seq<char>) -> Seq<char>
    decreases s.len(),
{
    if s.len() == 0 {
        s
    } else if s[0] == '\n' {
        seq![]
    } else {
        seq![s[0]] + first_line(s.drop_first())
    }
}

/// The value of a run of decimal digits.
pub open spec fn digits_value(t: Seq<char>) -> nat
    decreases t.len(),
{
    if t.len() == 0 {
        0
    } else {
        digits_value(t.drop_last()) * 10 + (t.last() as nat - '0' as nat) as nat
    }
}

/// Every character is a decimal digit.
pub open spec fn all_digits(t: Seq<char>) -> bool {
    forall|i: int| 0 <= i < t.len() ==> '0' <= #[trigger] t[i] <= '9'
}

/// A field read as a counter: an optional `+` and decimal digits that fit a
/// `u64`; anything else counts as 0.
pub open spec fn counter_value(t: Seq<char>) -> u64 {
    let d = if t.len() > 0 && t[0] == '+' {
        t.drop_first()
    } else {
        t
    };
    if d.len() > 0 && all_digits(d) && digits_value(d) <= u64::MAX {
        digits_value(d) as u64
    } else {
        0
    }
}

/// `a + b`, held at `u64::MAX`.
pub open spec fn sat_add(a: int, b: int) -> int {
    if a + b > u64::MAX {
        u64::MAX as int
    } else {
        a + b
    }
}

/// Total and active CPU time from the first line of `/proc/stat`, when it is the
/// aggregate `cpu ` line with at least seven counters: the total adds user,
/// nice, system, idle, iowait, irq and softirq; the active time leaves out idle
/// and iowait. Sums are held at `u64::MAX`.
pub open spec fn cpu_times_spec(content: Seq<char>) -> Option<(u64, u64)> {
    let line = first_line(content);
    let f = fields(line);
    if line.len() >= 4 && line.take(4) == "cpu "@ && f.len() >= 8 {
        let v = |k: int| counter_value(f[k]) as int;
        let active = sat_add(sat_add(sat_add(sat_add(v(1), v(2)), v(3)), v(6)), v(7));
        let total = sat_add(sat_add(sat_add(sat_add(sat_add(sat_add(v(1), v(2)), v(3)), v(4)), v(5)), v(6)), v(7));
        Some((total as u64, active as u64))
    } else {
        None
    }
}

fn split_line(content: &str) -> (r: Vec<Vec<char>>)
    ensures
        r@.len() == fields(first_line(content@)).len(),
        forall|k: int| 0 <= k < r@.len() ==> #[trigger] r@[k]@ == fields(first_line(content@))[k],
        first_line(content@).len() <= content@.len(),
{
    let n = content.unicode_len();
    let mut out: Vec<Vec<char>> = Vec::new();
    let mut i: usize = 0;
    let mut in_field = false;
    proof {
        lemma_first_line_prefix(content@);
    }
    let ghost line = first_line(content@);
    while i < n && content.get_char(i) != '\n'
        invariant
            n == content@.len(),
            0 <= i <= line.len(),
            line == first_line(content@),
            line.len() <= n,
            forall|t: int| 0 <= t < line.len() ==> content@[t] == #[trigger] line[t],
            line.len() < n ==> content@[line.len() as int] == '\n',
            out@.len() == fields(line.take(i as int)).len(),
            forall|k: int| 0 <= k < out@.len() ==> #[trigger] out@[k]@ == fields(line.take(i as int))[k],
            in_field == (i > 0 && !is_space(line[i - 1])),
        decreases n - i,
    {
        let c = content.get_char(i);
        let ghost pre = line.take(i as int);
        let ghost next = line.take(i + 1);
        assert(i < line.len()) by {
            if i == line.len() {
                assert(content@[i as int] == '\n');
            }
        }
        assert(next.drop_last() =~= pre);
        assert(next.last() == c);
        if c == ' ' || c == '\t' || c == '\n' || c == '\r' || c == '\x0b' || c == '\x0c' {
            in_field = false;
        } else if in_field {
            proof {
                assert(next[next.len() - 2] == line[i - 1]);
                lemma_fields_nonempty(pre);
                assert(pre.last() == line[i - 1]);
            }
            let last = out.len() - 1;
            let mut cur = out.pop().unwrap();
            cur.push(c);
            out.push(cur);
            proof {
                assert forall|k: int| 0 <= k < out@.len() implies #[trigger] out@[k]@ == fields(next)[k] by {
                    if k < last as int {
                    }
                }
            }
        } else {
            proof {
                if i > 0 {
                    assert(next[next.len() - 2] == line[i - 1]);
                }
            }
            let mut fresh: Vec<char> = Vec::new();
            fresh.push(c);
            assert(fresh@ =~= seq![c]);
            out.push(fresh);
            in_field = true;
        }
        i = i + 1;
    }
    proof {
        assert(i == line.len()) by {
            if i < line.len() {
                assert(content@[i as int] == line[i as int]);
                lemma_first_line_no_break(content@, i as int);
            }
        }
        assert(line.take(i as int) =~= line);
    }
    out
}

proof fn lemma_first_line_prefix(s: Seq<char>)
    ensures
        first_line(s).len() <= s.len(),
        forall|t: int| 0 <= t < first_line(s).len() ==> s[t] == #[trigger] first_line(s)[t],
        first_line(s).len() < s.len() ==> s[first_line(s).len() as int] == '\n',
    decreases s.len(),
{
    if s.len() > 0 && s[0] != '\n' {
        lemma_first_line_prefix(s.drop_first());
        let rest = first_line(s.drop_first());
        assert forall|t: int| 0 <= t < first_line(s).len() implies s[t] == #[trigger] first_line(
            s,
        )[t] by {
            if t > 0 {
                assert(first_line(s)[t] == rest[t - 1]);
            }
        }
    }
}

proof fn lemma_first_line_no_break(s: Seq<char>, t: int)
    requires
        0 <= t < first_line(s).len(),
    ensures
        s[t] != '\n',
    decreases s.len(),
{
    lemma_first_line_prefix(s);
    assert(s.len() > 0 && s[0] != '\n');
    if t > 0 {
        assert(first_line(s) == seq![s[0]] + first_line(s.drop_first()));
        lemma_first_line_no_break(s.drop_first(), t - 1);
        assert(s[t] == s.drop_first()[t - 1]);
    }
}

fn parse_counter(t: &Vec<char>) -> (r: u64)
    ensures
        r == counter_value(t@),
{
    let n = t.len();
    let start: usize = if n > 0 && t[0] == '+' { 1 } else { 0 };
    let ghost d = if t@.len() > 0 && t@[0] == '+' {
        t@.drop_first()
    } else {
        t@
    };
    assert(d =~= t@.subrange(start as int, n as int));
    assert(counter_value(t@) == (if d.len() > 0 && all_digits(d) && digits_value(d) <= u64::MAX {
        digits_value(d) as u64
    } else {
        0
    }));
    if start >= n {
        return 0;
    }
    let mut acc: u64 = 0;
    let mut over = false;
    let mut i: usize = start;
    while i < n
        invariant
            n == t@.len(),
            start <= i <= n,
            d == t@.subrange(start as int, n as int),
            counter_value(t@) == (if d.len() > 0 && all_digits(d) && digits_value(d) <= u64::MAX {
                digits_value(d) as u64
            } else {
                0
            }),
            all_digits(t@.subrange(start as int, i as int)),
            !over ==> acc == digits_value(t@.subrange(start as int, i as int)),
            over ==> digits_value(t@.subrange(start as int, i as int)) > u64::MAX,
        decreases n - i,
    {
        let c = t[i];
        let ghost pre = t@.subrange(start as int, i as int);
        let ghost next = t@.subrange(start as int, i + 1);
        assert(next.drop_last() =~= pre);
        if c < '0' || c > '9' {
            assert(d[i - start] == c);
            return 0;
        }
        let digit = (c as u32 - '0' as u32) as u64;
        assert(digits_value(next) == digits_value(pre) * 10 + digit);
        if !over {
            if acc > (u64::MAX - digit) / 10 {
                over = true;
            } else {
                assert(acc * 10 + digit <= u64::MAX) by (nonlinear_arith)
                    requires
                        acc <= (u64::MAX - digit) / 10,
                        digit <= 9,
                ;
                acc = acc * 10 + digit;
            }
        }
        assert(all_digits(next)) by {
            assert forall|k: int| 0 <= k < next.len() implies '0' <= #[trigger] next[k] <= '9' by {
                if k < pre.len() {
                    assert(next[k] == pre[k]);
                }
            }
        }
        i = i + 1;
    }
    assert(t@.subrange(start as int, n as int) == d);
    if over {
        0
    } else {
        acc
    }
}

/// Total and active CPU time read from the text of `/proc/stat` (see `cpu_times_spec`).
pub fn parse_cpu_times(content: &str) -> (r: Option<(u64, u64)>)
    ensures
        r == cpu_times_spec(content@),
{
    let f = split_line(content);
    let ghost line = first_line(content@);
    let n = content.unicode_len();
    proof {
        lemma_first_line_prefix(content@);
    }
    if n < 4 {
        return None;
    }
    let starts = content.get_char(0) == 'c' && content.get_char(1) == 'p' && content.get_char(2) == 'u'
        && content.get_char(3) == ' ';
    if !starts || f.len() < 8 {
        proof {
            if line.len() >= 4 && line.take(4) == "cpu "@ {
                reveal_strlit("cpu ");
                assert(line.take(4)[0] == 'c' && line.take(4)[1] == 'p');
                assert(line.take(4)[2] == 'u' && line.take(4)[3] == ' ');
            }
        }
        return None;
    }
    proof {
        reveal_strlit("cpu ");
        assert(line.len() >= 4) by {
            assert(content@[3] == ' ');
            if line.len() < 4 {
                assert(content@[line.len() as int] == '\n');
            }
        }
        assert(line.take(4) =~= "cpu "@);
    }
    let user = parse_counter(&f[1]);
    let nice = parse_counter(&f[2]);
    let system = parse_counter(&f[3]);
    let idle = parse_counter(&f[4]);
    let iowait = parse_counter(&f[5]);
    let irq = parse_counter(&f[6]);
    let softirq = parse_counter(&f[7]);
    let active = user.saturating_add(nice).saturating_add(system).saturating_add(irq).saturating_add(softirq);
    let total = user.saturating_add(nice).saturating_add(system).saturating_add(idle).saturating_add(iowait)
        .saturating_add(irq).saturating_add(softirq);
    Some((total, active))
}

} // verus!
