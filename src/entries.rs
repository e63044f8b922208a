//! Ordered lists of name/value pairs and lookup in them by name.
use vstd::prelude::*;
use vstd::string::*;

verus! {

/// The names and values of a list of pairs, as character sequences.
pub open spec fn entries_view(s: Seq<(String, String)>) -> Seq<(Seq<char>, Seq<char>)> {
    s.map_values(|p: (String, String)| (p.0@, p.1@))
}

/// The value of the first pair named `key`, if there is one.
pub open spec fn first_value(s: Seq<(Seq<char>, Seq<char>)>, key: Seq<char>) -> Option<Seq<char>>
    decreases s.len(),
{
    if s.len() == 0 {
        None
    } else if s[0].0 == key {
        Some(s[0].1)
    } else {
        first_value(s.drop_first(), key)
    }
}

/// The mapping that lookup by first match gives a list of pairs.
pub open spec fn entries_map(s: Seq<(Seq<char>, Seq<char>)>) -> Map<Seq<char>, Seq<char>> {
    Map::new(|k: Seq<char>| first_value(s, k) is Some, |k: Seq<char>| first_value(s, k)->Some_0)
}

/// Lookup in a suffix: the pair at `i` decides, or the suffix after it.
proof fn lemma_first_value_step(s: Seq<(Seq<char>, Seq<char>)>, i: int, key: Seq<char>)
    requires
        0 <= i < s.len(),
    ensures
        first_value(s.subrange(i, s.len() as int), key) == if s[i].0 == key {
            Some(s[i].1)
        } else {
            first_value(s.subrange(i + 1, s.len() as int), key)
        },
{
    assert(s.subrange(i, s.len() as int).drop_first() =~= s.subrange(i + 1, s.len() as int));
}

/// Appending a pair leaves every name found before unchanged.
pub proof fn lemma_first_value_push(
    s: Seq<(Seq<char>, Seq<char>)>,
    p: (Seq<char>, Seq<char>),
    key: Seq<char>,
)
    ensures
        first_value(s.push(p), key) == match first_value(s, key) {
            Some(v) => Some(v),
            None => if p.0 == key {
                Some(p.1)
            } else {
                None
            },
        },
    decreases s.len(),
{
    if s.len() > 0 {
        assert(s.push(p).drop_first() =~= s.drop_first().push(p));
        lemma_first_value_push(s.drop_first(), p, key);
    } else {
        assert(s.push(p).drop_first() =~= s);
    }
}

/// The value of the first pair of `entries` named `key`.
pub fn find_value<'a>(entries: &'a [(String, String)], key: &str) -> (r: Option<&'a String>)
    ensures
        r.is_some() == (first_value(entries_view(entries@), key@) is Some),
        r.is_some() ==> r.unwrap()@ == first_value(entries_view(entries@), key@)->Some_0,
{
    let ghost s = entries_view(entries@);
    let k = String::from_str(key);
    let mut i: usize = 0;
    assert(s.subrange(0, s.len() as int) =~= s);
    while i < entries.len()
        invariant
            s == entries_view(entries@),
            k@ == key@,
            i <= entries.len(),
            first_value(s.subrange(i as int, s.len() as int), key@) == first_value(s, key@),
        decreases entries.len() - i,
    {
        proof {
            lemma_first_value_step(s, i as int, key@);
        }
        if entries[i].0 == k {
            return Some(&entries[i].1);
        }
        i = i + 1;
    }
    None
}

} // verus!
