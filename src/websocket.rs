use vstd::prelude::*;
use vstd::string::{StrSliceExecFns, StringExecFns};
use crate::text::{append_decimal, decimal};

verus! {

/// Where a WebSocket value comes from and how to start its stream.
#[derive(Clone)]
pub struct WebSocketConfig {
    pub url: String,
    pub api_key: Option<String>,
    pub init_messages: Vec<String>,
    pub send_pings: bool,
}

/// The address to connect to: the API key, when there is one, is added as the
/// `apikey` query parameter, after `&` when the address already has a query and
/// after `?` otherwise.
pub open spec fn connection_url_spec(url: Seq<char>, api_key: Option<Seq<char>>) -> Seq<char> {
    match api_key {
        Some(k) => url + (if url.contains('?') {
            "&apikey="@
        } else {
            "?apikey="@
        }) + k,
        None => url,
    }
}

/// The characters of an optional key.
pub open spec fn key_view(k: Option<String>) -> Option<Seq<char>> {
    match k {
        Some(s) => Some(s@),
        None => None,
    }
}

fn has_query(url: &str) -> (r: bool)
    ensures
        r == url@.contains('?'),
{
    let n = url.unicode_len();
    let mut i: usize = 0;
    while i < n
        invariant
            n == url@.len(),
            0 <= i <= n,
            forall|j: int| 0 <= j < i ==> url@[j] != '?',
        decreases n - i,
    {
        if url.get_char(i) == '?' {
            assert(url@[i as int] == '?');
            return true;
        }
        i = i + 1;
    }
    false
}

impl WebSocketConfig {
    /// The address to connect to (see `connection_url_spec`).
    pub fn connection_url(&self) -> (r: String)
        ensures
            r@ == connection_url_spec(self.url@, key_view(self.api_key)),
    {
        match &self.api_key {
            Some(key) => {
                let mut url = self.url.clone();
                if has_query(self.url.as_str()) {
                    url.append("&apikey=");
                } else {
                    url.append("?apikey=");
                }
                url.append(key.as_str());
                url
            },
            None => self.url.clone(),
        }
    }

    /// The id of the first keep-alive ping: one past the ids used by the
    /// initialization messages.
    pub fn first_ping_id(&self) -> (r: u64)
        ensures
            r == self.init_messages@.len(),
    {
        self.init_messages.len() as u64
    }
}

/// The keep-alive message with id `id`: `{"ping":{},"id":<id>}`.
pub open spec fn ping_message_spec(id: nat) -> Seq<char> {
    "{\"ping\":{},\"id\":"@ + decimal(id) + "}"@
}

/// The keep-alive message with id `id` (see `ping_message_spec`).
pub fn ping_message(id: u64) -> (r: String)
    ensures
        r@ == ping_message_spec(id as nat),
{
    let mut s = String::from_str("{\"ping\":{},\"id\":");
    append_decimal(&mut s, id);
    s.append("}");
    s
}

} // verus!
