//! Checking a list of required names against an environment.
use vstd::prelude::*;
use vstd::string::*;
use crate::config::EnvConfig;
use crate::entries::{entries_map, entries_view, find_value, first_value, lemma_first_value_push};
use crate::error::{pairs_view, strings_view, ConfigError};
use crate::text::{is_blank, is_blank_str};

verus! {

/// A list of names as character sequences.
pub open spec fn names_view(s: Seq<&str>) -> Seq<Seq<char>> {
    s.map_values(|x: &str| x@)
}

/// Whether `name` has a value in `env` that is not blank.
pub open spec fn is_accepted(env: Seq<(Seq<char>, Seq<char>)>, name: Seq<char>) -> bool {
    match first_value(env, name) {
        Some(v) => !is_blank(v),
        None => false,
    }
}

/// What one name adds to the missing list: the bare name when `env` lacks it,
/// the name annotated `" (empty)"` when its value is blank, nothing otherwise.
pub open spec fn missing_entry(env: Seq<(Seq<char>, Seq<char>)>, name: Seq<char>) -> Seq<Seq<char>> {
    match first_value(env, name) {
        None => seq![name],
        Some(v) => if is_blank(v) {
            seq![name + " (empty)"@]
        } else {
            Seq::empty()
        },
    }
}

/// The missing list of a validation, in the order of `names`.
pub open spec fn missing_names(
    env: Seq<(Seq<char>, Seq<char>)>,
    names: Seq<Seq<char>>,
) -> Seq<Seq<char>>
    decreases names.len(),
{
    if names.len() == 0 {
        Seq::empty()
    } else {
        missing_names(env, names.drop_last()) + missing_entry(env, names.last())
    }
}

/// The values of the accepted names among `names`.
pub open spec fn accepted_values(
    env: Seq<(Seq<char>, Seq<char>)>,
    names: Seq<Seq<char>>,
) -> Map<Seq<char>, Seq<char>> {
    Map::new(
        |k: Seq<char>| names.contains(k) && is_accepted(env, k),
        |k: Seq<char>| first_value(env, k)->Some_0,
    )
}

/// What `validate_env_vars` states of its outcome `r` on `env` and `names`.
pub open spec fn validation_result(
    r: Result<EnvConfig, ConfigError>,
    env: Seq<(Seq<char>, Seq<char>)>,
    names: Seq<Seq<char>>,
) -> bool {
    &&& r is Ok == (missing_names(env, names).len() == 0)
    &&& r is Ok ==> r->Ok_0@ == accepted_values(env, names)
    &&& r is Err ==> strings_view(r->Err_0.missing_vars@) == missing_names(env, names)
    &&& r is Err ==> r->Err_0.invalid_vars@.len() == 0
}

/// Two outcomes that no caller can tell apart by what they hold.
pub open spec fn same_outcome(r1: Result<EnvConfig, ConfigError>, r2: Result<EnvConfig, ConfigError>) -> bool {
    match (r1, r2) {
        (Ok(c1), Ok(c2)) => c1@ == c2@,
        (Err(e1), Err(e2)) => strings_view(e1.missing_vars@) == strings_view(e2.missing_vars@)
            && pairs_view(e1.invalid_vars@) == pairs_view(e2.invalid_vars@),
        _ => false,
    }
}

/// Nothing is missing exactly when every name is accepted.
pub proof fn lemma_missing_empty_iff(env: Seq<(Seq<char>, Seq<char>)>, names: Seq<Seq<char>>)
    ensures
        (missing_names(env, names).len() == 0) == (forall|i: int|
            0 <= i < names.len() ==> is_accepted(env, #[trigger] names[i])),
    decreases names.len(),
{
    if names.len() > 0 {
        let init = names.drop_last();
        lemma_missing_empty_iff(env, init);
        assert forall|i: int| 0 <= i < init.len() implies init[i] == names[i] by {}
        if forall|i: int| 0 <= i < names.len() ==> is_accepted(env, #[trigger] names[i]) {
            assert(is_accepted(env, names[names.len() - 1]));
            assert forall|i: int| 0 <= i < init.len() implies is_accepted(env, #[trigger] init[i]) by {
                assert(is_accepted(env, names[i]));
            }
        }
        if missing_names(env, names).len() == 0 {
            assert forall|i: int| 0 <= i < names.len() implies is_accepted(env, #[trigger] names[i]) by {
                if i < init.len() {
                    assert(is_accepted(env, init[i]));
                }
            }
        }
    }
}

/// Whatever one name contributes to the missing list appears in the missing
/// list of every list of names that holds it.
pub proof fn lemma_missing_entry_listed(
    env: Seq<(Seq<char>, Seq<char>)>,
    names: Seq<Seq<char>>,
    i: int,
    x: Seq<char>,
)
    requires
        0 <= i < names.len(),
        missing_entry(env, names[i]).contains(x),
    ensures
        missing_names(env, names).contains(x),
    decreases names.len(),
{
    let init = names.drop_last();
    let entry = missing_entry(env, names.last());
    if i == names.len() - 1 {
        let j = choose|j: int| 0 <= j < entry.len() && entry[j] == x;
        assert(missing_names(env, names)[missing_names(env, init).len() + j] == x);
    } else {
        assert(init[i] == names[i]);
        lemma_missing_entry_listed(env, init, i, x);
        let j = choose|j: int| 0 <= j < missing_names(env, init).len() && missing_names(env, init)[j] == x;
        assert(missing_names(env, names)[j] == x);
    }
}

/// When every one of a non-empty list of names has a non-blank value,
/// validation succeeds and the accessor holds exactly that value for each name.
pub proof fn lemma_all_present_succeeds(env: Seq<(Seq<char>, Seq<char>)>, names: Seq<Seq<char>>)
    requires
        names.len() > 0,
        forall|i: int| 0 <= i < names.len() ==> is_accepted(env, #[trigger] names[i]),
    ensures
        missing_names(env, names).len() == 0,
        forall|i: int|
            0 <= i < names.len() ==> accepted_values(env, names).contains_key(#[trigger] names[i])
                && accepted_values(env, names)[names[i]] == first_value(env, names[i])->Some_0,
{
    lemma_missing_empty_iff(env, names);
    assert forall|i: int| 0 <= i < names.len() implies accepted_values(env, names).contains_key(
        #[trigger] names[i],
    ) by {
        assert(names.contains(names[i]));
    }
}

/// A name that the environment lacks fails validation and is listed, bare,
/// among the missing names.
pub proof fn lemma_absent_name_listed(env: Seq<(Seq<char>, Seq<char>)>, names: Seq<Seq<char>>, i: int)
    requires
        0 <= i < names.len(),
        first_value(env, names[i]) is None,
    ensures
        missing_names(env, names).len() > 0,
        missing_names(env, names).contains(names[i]),
{
    assert(missing_entry(env, names[i])[0] == names[i]);
    lemma_missing_entry_listed(env, names, i, names[i]);
}

/// A name whose value is `""` or three spaces fails validation and is listed
/// among the missing names with the `" (empty)"` annotation.
pub proof fn lemma_blank_name_listed(env: Seq<(Seq<char>, Seq<char>)>, names: Seq<Seq<char>>, i: int)
    requires
        0 <= i < names.len(),
        first_value(env, names[i]) == Some(""@) || first_value(env, names[i]) == Some("   "@),
    ensures
        missing_names(env, names).len() > 0,
        missing_names(env, names).contains(names[i] + " (empty)"@),
{
    reveal_strlit("");
    reveal_strlit("   ");
    let v = first_value(env, names[i])->Some_0;
    assert(is_blank(v));
    assert(missing_entry(env, names[i])[0] == names[i] + " (empty)"@);
    lemma_missing_entry_listed(env, names, i, names[i] + " (empty)"@);
}

/// Validating the same names twice against the same environment gives equal
/// outcomes.
pub proof fn lemma_validate_idempotent(
    env: Seq<(Seq<char>, Seq<char>)>,
    names: Seq<Seq<char>>,
    r1: Result<EnvConfig, ConfigError>,
    r2: Result<EnvConfig, ConfigError>,
)
    requires
        validation_result(r1, env, names),
        validation_result(r2, env, names),
    ensures
        same_outcome(r1, r2),
{
    if let (Err(e1), Err(e2)) = (r1, r2) {
        assert(pairs_view(e1.invalid_vars@) =~= pairs_view(e2.invalid_vars@));
    }
}

/// An empty list of names always succeeds, with an accessor that holds no key.
pub proof fn lemma_empty_list_succeeds(env: Seq<(Seq<char>, Seq<char>)>)
    ensures
        missing_names(env, Seq::empty()).len() == 0,
        accepted_values(env, Seq::empty()) == Map::<Seq<char>, Seq<char>>::empty(),
{
    assert(accepted_values(env, Seq::empty()) =~= Map::<Seq<char>, Seq<char>>::empty());
}

/// Checks each of `required_vars`, in order, against `env`, a list of
/// name/value pairs in which the first pair of a name gives its value.
/// Succeeds with the values of all names when none is absent or blank;
/// otherwise fails with every absent or blank name.
pub fn validate_env_vars(required_vars: &[&str], env: &[(String, String)]) -> (r: Result<
    EnvConfig,
    ConfigError,
>)
    ensures
        validation_result(r, entries_view(env@), names_view(required_vars@)),
{
    proof {
        reveal_strlit(" (empty)");
    }
    let ghost e = entries_view(env@);
    let ghost names = names_view(required_vars@);
    let mut missing_vars: Vec<String> = Vec::new();
    let mut vars: Vec<(String, String)> = Vec::new();
    let mut i: usize = 0;
    assert(names.subrange(0, 0) =~= Seq::<Seq<char>>::empty());
    assert(strings_view(missing_vars@) =~= Seq::<Seq<char>>::empty());
    assert(entries_map(entries_view(vars@)) =~= accepted_values(e, names.subrange(0, 0)));
    while i < required_vars.len()
        invariant
            e == entries_view(env@),
            names == names_view(required_vars@),
            i <= required_vars.len(),
            strings_view(missing_vars@) == missing_names(e, names.subrange(0, i as int)),
            entries_map(entries_view(vars@)) == accepted_values(e, names.subrange(0, i as int)),
        decreases required_vars.len() - i,
    {
        let name: &str = required_vars[i];
        let ghost prefix = names.subrange(0, i as int);
        let ghost next = names.subrange(0, i + 1);
        assert(next.drop_last() =~= prefix);
        assert(next.last() == name@);
        let ghost old_missing = missing_vars@;
        let ghost old_vars = vars@;
        match find_value(env, name) {
            Some(val) => {
                if is_blank_str(val.as_str()) {
                    missing_vars.push(String::from_str(name).concat(" (empty)"));
                    assert(strings_view(missing_vars@) =~= strings_view(old_missing) + missing_entry(e, name@));
                } else {
                    vars.push((String::from_str(name), val.clone()));
                    assert(entries_view(vars@) =~= entries_view(old_vars).push((name@, val@)));
                    assert(missing_entry(e, name@) =~= Seq::<Seq<char>>::empty());
                    assert(strings_view(missing_vars@) =~= strings_view(old_missing) + missing_entry(e, name@));
                }
            },
            None => {
                missing_vars.push(String::from_str(name));
                assert(strings_view(missing_vars@) =~= strings_view(old_missing) + missing_entry(e, name@));
            },
        }
        assert(entries_view(vars@) == if is_accepted(e, name@) {
            entries_view(old_vars).push((name@, first_value(e, name@)->Some_0))
        } else {
            entries_view(old_vars)
        });
        proof {
            let m = entries_map(entries_view(vars@));
            let old_m = entries_map(entries_view(old_vars));
            let target = accepted_values(e, next);
            assert forall|k: Seq<char>| #[trigger] next.contains(k) == (prefix.contains(k) || k == name@) by {
                if next.contains(k) {
                    let j = choose|j: int| 0 <= j < next.len() && next[j] == k;
                    if j < prefix.len() {
                        assert(prefix[j] == k);
                    }
                }
                if prefix.contains(k) {
                    let j = choose|j: int| 0 <= j < prefix.len() && prefix[j] == k;
                    assert(next[j] == k);
                }
                if k == name@ {
                    assert(next[i as int] == k);
                }
            }
            assert forall|k: Seq<char>| #[trigger] m.contains_key(k) == target.contains_key(k)
                && (m.contains_key(k) ==> m[k] == target[k]) by {
                assert(old_m.contains_key(k) == (prefix.contains(k) && is_accepted(e, k)));
                assert(old_m.contains_key(k) ==> old_m[k] == first_value(e, k)->Some_0);
                lemma_first_value_push(entries_view(old_vars), (name@, first_value(e, name@)->Some_0), k);
            }
            assert(m =~= target);
        }
        i = i + 1;
    }
    assert(names.subrange(0, names.len() as int) =~= names);
    if missing_vars.len() == 0 {
        Ok(EnvConfig::from_entries(vars))
    } else {
        Err(ConfigError { missing_vars, invalid_vars: Vec::new() })
    }
}

} // verus!
