//! Identifiers of the federation: a user id names its home server after the
//! first `:` (`@alice:example.org` belongs to `example.org`).

use vstd::prelude::*;

verus! {

/// The texts of a list of strings.
pub open spec fn strings_view(v: Seq<String>) -> Seq<Seq<char>> {
    v.map_values(|s: String| s@)
}

/// `i` is the position of the first `:` in `s`.
pub open spec fn is_first_colon(s: Seq<char>, i: int) -> bool {
    &&& 0 <= i < s.len()
    &&& s[i] == ':'
    &&& forall|j: int| 0 <= j < i ==> s[j] != ':'
}

/// The server part of an identifier: what follows its first `:`, if it has one.
pub open spec fn server_of(s: Seq<char>) -> Option<Seq<char>> {
    if exists|i: int| is_first_colon(s, i) {
        Some(s.skip((choose|i: int| is_first_colon(s, i)) + 1))
    } else {
        None
    }
}

/// The principal `user` belongs to the server `server`.
pub open spec fn belongs_to(user: Seq<char>, server: Seq<char>) -> bool {
    server_of(user) == Some(server)
}

proof fn lemma_first_colon_unique(s: Seq<char>, i: int, k: int)
    requires
        is_first_colon(s, i),
        is_first_colon(s, k),
    ensures
        i == k,
{
}

/// The server part of an identifier is what follows its first `:`.
pub proof fn lemma_server_of(s: Seq<char>, i: int)
    requires
        is_first_colon(s, i),
    ensures
        server_of(s) == Some(s.skip(i + 1)),
{
    let c = choose|k: int| is_first_colon(s, k);
    lemma_first_colon_unique(s, i, c);
}

/// The server name of an identifier: the text after its first `:`.
pub fn server_name(id: &str) -> (r: Option<String>)
    ensures
        r.is_some() == server_of(id@).is_some(),
        r.is_some() ==> r.unwrap()@ == server_of(id@).unwrap(),
{
    let n = id.unicode_len();
    let mut i: usize = 0;
    while i < n
        invariant
            n == id@.len(),
            i <= n,
            forall|j: int| 0 <= j < i ==> id@[j] != ':',
        decreases n - i,
    {
        if id.get_char(i) == ':' {
            proof {
                lemma_server_of(id@, i as int);
            }
            let rest = id.substring_char(i + 1, n);
            return Some(rest.to_owned());
        }
        i = i + 1;
    }
    None
}

/// Whether `user_id` belongs to the server `server`.
pub fn belongs_to_server(user_id: &str, server: &str) -> (r: bool)
    ensures
        r == belongs_to(user_id@, server@),
{
    match server_name(user_id) {
        Some(name) => {
            let s = server.to_owned();
            name == s
        },
        None => false,
    }
}

} // verus!
