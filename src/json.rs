use vstd::prelude::*;

verus! {

/// What a JSON value is, as far as finding a number in it goes.
#[derive(Debug, Clone, Copy, PartialEq, Eq, Structural)]
pub enum JsonKind {
    Number,
    Object,
    Array,
    Other,
}

/// One value of a JSON document. A number holds its value in thousandths; an
/// object lists its members as (key, node) in the document's order; an array
/// lists its elements as nodes, with empty keys.
pub struct JsonNode {
    pub kind: JsonKind,
    pub number: i64,
    pub children: Vec<(String, usize)>,
}

/// The field names looked at first, in this order.
pub open spec fn preferred_key(k: int) -> Seq<char> {
    if k == 0 {
        "value"@
    } else if k == 1 {
        "data"@
    } else if k == 2 {
        "result"@
    } else if k == 3 {
        "temperature"@
    } else if k == 4 {
        "temp"@
    } else {
        "load"@
    }
}

/// How many field names are looked at first.
pub const PREFERRED_KEYS: usize = 6;

/// A child reference that points further into the document.
pub open spec fn forward(nodes: Seq<JsonNode>, i: int, c: usize) -> bool {
    i < c < nodes.len()
}

/// The number found in node `i`: a number is itself; an object gives the number
/// found under the first preferred key that yields one, else the first member
/// that yields one; an array gives what its first element yields; anything else
/// gives none.
pub open spec fn value_at(nodes: Seq<JsonNode>, i: int) -> Option<i64>
    decreases nodes.len() - i, 3int, 0int,
{
    if i < 0 || i >= nodes.len() {
        None
    } else {
        match nodes[i].kind {
            JsonKind::Number => Some(nodes[i].number),
            JsonKind::Array => {
                let ch = nodes[i].children@;
                if ch.len() > 0 && forward(nodes, i, ch[0].1) {
                    value_at(nodes, ch[0].1 as int)
                } else {
                    None
                }
            },
            JsonKind::Object => match preferred_from(nodes, i, 0) {
                Some(v) => Some(v),
                None => first_member_from(nodes, i, 0),
            },
            JsonKind::Other => None,
        }
    }
}

/// The position of the first member of object `i` from position `j` on whose key is `key`.
pub open spec fn find_key(ch: Seq<(String, usize)>, key: Seq<char>, j: int) -> Option<int>
    decreases ch.len() - j,
{
    if j < 0 || j >= ch.len() {
        None
    } else if ch[j].0@ == key {
        Some(j)
    } else {
        find_key(ch, key, j + 1)
    }
}

/// The number under the preferred keys of object `i`, from the `k`-th key on.
pub open spec fn preferred_from(nodes: Seq<JsonNode>, i: int, k: int) -> Option<i64>
    decreases nodes.len() - i, 2int, PREFERRED_KEYS - k,
{
    if i < 0 || i >= nodes.len() || k < 0 || k >= PREFERRED_KEYS {
        None
    } else {
        let ch = nodes[i].children@;
        let here = match find_key(ch, preferred_key(k), 0) {
            Some(j) => if 0 <= j < ch.len() && forward(nodes, i, ch[j].1) {
                value_at(nodes, ch[j].1 as int)
            } else {
                None
            },
            None => None,
        };
        match here {
            Some(v) => Some(v),
            None => preferred_from(nodes, i, k + 1),
        }
    }
}

/// The number of the first member of object `i`, from position `j` on, that yields one.
pub open spec fn first_member_from(nodes: Seq<JsonNode>, i: int, j: int) -> Option<i64>
    decreases nodes.len() - i, 1int, nodes[i].children@.len() - j,
{
    if i < 0 || i >= nodes.len() || j < 0 || j >= nodes[i].children@.len() {
        None
    } else {
        let c = nodes[i].children@[j].1;
        let here = if forward(nodes, i, c) {
            value_at(nodes, c as int)
        } else {
            None
        };
        match here {
            Some(v) => Some(v),
            None => first_member_from(nodes, i, j + 1),
        }
    }
}

/// Every child reference points further into the document.
pub open spec fn well_formed(nodes: Seq<JsonNode>) -> bool {
    forall|i: int, j: int|
        0 <= i < nodes.len() && 0 <= j < nodes[i].children@.len() ==> forward(
            nodes,
            i,
            #[trigger] nodes[i].children@[j].1,
        )
}

fn key_is(s: &String, k: usize) -> (r: bool)
    requires
        k < PREFERRED_KEYS,
    ensures
        r == (s@ == preferred_key(k as int)),
{
    let want: &str = if k == 0 {
        "value"
    } else if k == 1 {
        "data"
    } else if k == 2 {
        "result"
    } else if k == 3 {
        "temperature"
    } else if k == 4 {
        "temp"
    } else {
        "load"
    };
    string_eq(s.as_str(), want)
}

fn string_eq(a: &str, b: &str) -> (r: bool)
    ensures
        r == (a@ == b@),
{
    let n = a.unicode_len();
    if n != b.unicode_len() {
        return false;
    }
    let mut i: usize = 0;
    while i < n
        invariant
            n == a@.len(),
            n == b@.len(),
            0 <= i <= n,
            forall|t: int| 0 <= t < i ==> a@[t] == b@[t],
        decreases n - i,
    {
        if a.get_char(i) != b.get_char(i) {
            return false;
        }
        i = i + 1;
    }
    assert(a@ =~= b@);
    true
}

fn find_key_exec(ch: &Vec<(String, usize)>, k: usize) -> (r: Option<usize>)
    requires
        k < PREFERRED_KEYS,
    ensures
        match r {
            Some(j) => find_key(ch@, preferred_key(k as int), 0) == Some(j as int) && j < ch@.len(),
            None => find_key(ch@, preferred_key(k as int), 0) is None,
        },
{
    let mut j: usize = 0;
    while j < ch.len()
        invariant
            k < PREFERRED_KEYS,
            0 <= j <= ch@.len(),
            find_key(ch@, preferred_key(k as int), 0) == find_key(ch@, preferred_key(k as int), j as int),
        decreases ch@.len() - j,
    {
        if key_is(&ch[j].0, k) {
            return Some(j);
        }
        j = j + 1;
    }
    None
}

/// The number found in node `i` (see `value_at`).
pub fn extract_at(nodes: &Vec<JsonNode>, i: usize) -> (r: Option<i64>)
    requires
        well_formed(nodes@),
    ensures
        r == value_at(nodes@, i as int),
    decreases nodes@.len() - i, 3int, 0int,
{
    if i >= nodes.len() {
        return None;
    }
    let node = &nodes[i];
    match node.kind {
        JsonKind::Number => Some(node.number),
        JsonKind::Array => {
            if node.children.len() > 0 {
                let c = node.children[0].1;
                assert(forward(nodes@, i as int, nodes@[i as int].children@[0].1));
                extract_at(nodes, c)
            } else {
                None
            }
        },
        JsonKind::Object => match preferred_exec(nodes, i, 0) {
            Some(v) => Some(v),
            None => first_member_exec(nodes, i, 0),
        },
        JsonKind::Other => None,
    }
}

fn preferred_exec(nodes: &Vec<JsonNode>, i: usize, k: usize) -> (r: Option<i64>)
    requires
        well_formed(nodes@),
        i < nodes@.len(),
        k <= PREFERRED_KEYS,
    ensures
        r == preferred_from(nodes@, i as int, k as int),
    decreases nodes@.len() - i, 2int, PREFERRED_KEYS - k,
{
    if k >= PREFERRED_KEYS {
        return None;
    }
    let ch = &nodes[i].children;
    let here = match find_key_exec(ch, k) {
        Some(j) => {
            let c = ch[j].1;
            assert(forward(nodes@, i as int, nodes@[i as int].children@[j as int].1));
            extract_at(nodes, c)
        },
        None => None,
    };
    match here {
        Some(v) => Some(v),
        None => preferred_exec(nodes, i, k + 1),
    }
}

fn first_member_exec(nodes: &Vec<JsonNode>, i: usize, j: usize) -> (r: Option<i64>)
    requires
        well_formed(nodes@),
        i < nodes@.len(),
        j <= nodes@[i as int].children@.len(),
    ensures
        r == first_member_from(nodes@, i as int, j as int),
    decreases nodes@.len() - i, 1int, nodes@[i as int].children@.len() - j,
{
    let ch = &nodes[i].children;
    if j >= ch.len() {
        return None;
    }
    let c = ch[j].1;
    assert(forward(nodes@, i as int, nodes@[i as int].children@[j as int].1));
    match extract_at(nodes, c) {
        Some(v) => Some(v),
        None => first_member_exec(nodes, i, j + 1),
    }
}

/// The number a JSON message carries, looked for from its root (node 0); `None`
/// when the document has a child reference that does not point further on.
pub fn extract_value(nodes: &Vec<JsonNode>) -> (r: Option<i64>)
    ensures
        well_formed(nodes@) ==> r == value_at(nodes@, 0),
        !well_formed(nodes@) ==> r is None,
{
    if !check_forward(nodes) {
        return None;
    }
    extract_at(nodes, 0)
}

fn check_forward(nodes: &Vec<JsonNode>) -> (r: bool)
    ensures
        r == well_formed(nodes@),
{
    let n = nodes.len();
    let mut i: usize = 0;
    while i < n
        invariant
            n == nodes@.len(),
            0 <= i <= n,
            forall|a: int, b: int|
                0 <= a < i && 0 <= b < nodes@[a].children@.len() ==> forward(
                    nodes@,
                    a,
                    #[trigger] nodes@[a].children@[b].1,
                ),
        decreases n - i,
    {
        let ch = &nodes[i].children;
        let mut j: usize = 0;
        while j < ch.len()
            invariant
                n == nodes@.len(),
                0 <= i < n,
                ch == nodes@[i as int].children,
                0 <= j <= ch@.len(),
                forall|a: int, b: int|
                    0 <= a < i && 0 <= b < nodes@[a].children@.len() ==> forward(
                        nodes@,
                        a,
                        #[trigger] nodes@[a].children@[b].1,
                    ),
                forall|b: int| 0 <= b < j ==> forward(nodes@, i as int, #[trigger] ch@[b].1),
            decreases ch@.len() - j,
        {
            let c = ch[j].1;
            if c <= i || c >= n {
                assert(!forward(nodes@, i as int, nodes@[i as int].children@[j as int].1));
                return false;
            }
            j = j + 1;
        }
        i = i + 1;
    }
    true
}

} // verus!
