//! The secrets an agent environment exposes, and how the environment
//! commands' secret flags change them.
//!
//! An environment either exposes every available secret (no list) or
//! exactly the secrets of its list, which may be empty.

use vstd::prelude::*;

use crate::text::{owned, push_all, texts_equal};

verus! {

/// A secret an environment exposes, by name.
#[derive(Debug, PartialEq, Eq)]
pub struct EnvironmentSecretRef {
    pub name: String,
}

/// The secret flags of an environment update: names to add, names to
/// remove, and whether to remove every secret.
#[derive(Debug)]
pub struct SecretFlags {
    pub add: Vec<String>,
    pub remove: Vec<String>,
    pub remove_all: bool,
}

impl Default for SecretFlags {
    fn default() -> (r: Self)
        ensures
            r.add@.len() == 0 && r.remove@.len() == 0 && !r.remove_all,
    {
        SecretFlags { add: Vec::new(), remove: Vec::new(), remove_all: false }
    }
}

/// What the secret flags make of an environment's secrets.
#[derive(Debug)]
pub struct SecretUpdate {
    /// The environment's new secret list.
    pub secrets: Option<Vec<EnvironmentSecretRef>>,
    /// Names asked to be removed that the list did not hold.
    pub missing_removals: Vec<String>,
    /// Whether an environment that exposed every secret now exposes only a
    /// list.
    pub narrowed_from_all_secrets: bool,
}

/// Why the secret flags were refused.
#[derive(Debug, Clone, Copy, PartialEq, Eq, Structural)]
pub enum EnvironmentError {
    /// Removing single secrets from an environment that exposes every
    /// secret: there is no list to remove them from.
    RemoveFromAllSecrets,
}

impl EnvironmentError {
    pub open spec fn spec_message(self) -> Seq<char> {
        match self {
            EnvironmentError::RemoveFromAllSecrets => "The environment exposes every available secret, so there is no list to remove from; pass --remove-all-secrets to expose none"@,
        }
    }

    /// The message the error is reported with.
    pub fn message(&self) -> (r: &'static str)
        ensures
            r@ == self.spec_message(),
    {
        match self {
            EnvironmentError::RemoveFromAllSecrets => "The environment exposes every available secret, so there is no list to remove from; pass --remove-all-secrets to expose none",
        }
    }
}

pub open spec fn strings_view(v: Seq<String>) -> Seq<Seq<char>> {
    v.map_values(|s: String| s@)
}

pub open spec fn names_view(v: Seq<EnvironmentSecretRef>) -> Seq<Seq<char>> {
    v.map_values(|s: EnvironmentSecretRef| s.name@)
}

/// The names with every repeat dropped, first occurrences kept in order.
pub open spec fn dedup_names(s: Seq<Seq<char>>) -> Seq<Seq<char>>
    decreases s.len(),
{
    if s.len() == 0 {
        s
    } else {
        let r = dedup_names(s.drop_last());
        if r.contains(s.last()) {
            r
        } else {
            r.push(s.last())
        }
    }
}

/// The list without `name`.
pub open spec fn without(list: Seq<Seq<char>>, name: Seq<char>) -> Seq<Seq<char>>
    decreases list.len(),
{
    if list.len() == 0 {
        list
    } else {
        let r = without(list.drop_last(), name);
        if list.last() == name {
            r
        } else {
            r.push(list.last())
        }
    }
}

/// The list after each removal in turn, and the removals it did not hold.
pub open spec fn removals(list: Seq<Seq<char>>, remove: Seq<Seq<char>>) -> (Seq<Seq<char>>, Seq<Seq<char>>)
    decreases remove.len(),
{
    if remove.len() == 0 {
        (list, Seq::empty())
    } else {
        let (l, missing) = removals(list, remove.drop_last());
        if l.contains(remove.last()) {
            (without(l, remove.last()), missing)
        } else {
            (l, missing.push(remove.last()))
        }
    }
}

/// The list after each addition in turn, each name at most once more.
pub open spec fn additions(list: Seq<Seq<char>>, add: Seq<Seq<char>>) -> Seq<Seq<char>>
    decreases add.len(),
{
    if add.len() == 0 {
        list
    } else {
        let l = additions(list, add.drop_last());
        if l.contains(add.last()) {
            l
        } else {
            l.push(add.last())
        }
    }
}

/// What the secret flags do to an environment's secrets (`None`: every
/// secret): nothing without flags; removing single secrets from an
/// environment exposing every secret is refused; else removing every secret
/// empties the list, single removals come off it (the ones it lacked are
/// reported), and additions join its end unless already on it. Narrowing
/// is reported when an environment exposing every secret gets a list that
/// the flags did not empty.
pub open spec fn secret_flags_spec(
    current: Option<Seq<Seq<char>>>,
    add: Seq<Seq<char>>,
    remove: Seq<Seq<char>>,
    remove_all: bool,
) -> Result<Option<(Seq<Seq<char>>, Seq<Seq<char>>, bool)>, EnvironmentError> {
    if add.len() == 0 && remove.len() == 0 && !remove_all {
        Ok(None)
    } else if current is None && remove.len() > 0 && !remove_all {
        Err(EnvironmentError::RemoveFromAllSecrets)
    } else {
        let start = if remove_all {
            Seq::empty()
        } else {
            match current {
                Some(c) => c,
                None => Seq::empty(),
            }
        };
        let (kept, missing) = if remove_all {
            (start, Seq::empty())
        } else {
            removals(start, remove)
        };
        Ok(Some((additions(kept, add), missing, current is None && !remove_all)))
    }
}

fn contains_text(list: &Vec<String>, name: &str) -> (r: bool)
    ensures
        r == strings_view(list@).contains(name@),
{
    let ghost v = strings_view(list@);
    let mut i: usize = 0;
    while i < list.len()
        invariant
            i <= list.len(),
            v == strings_view(list@),
            forall|k: int| 0 <= k < i ==> v[k] != name@,
        decreases list.len() - i,
    {
        if texts_equal(list[i].as_str(), name) {
            assert(v[i as int] == name@);
            return true;
        }
        i = i + 1;
    }
    false
}

fn without_name(list: &Vec<String>, name: &str) -> (r: Vec<String>)
    ensures
        strings_view(r@) == without(strings_view(list@), name@),
{
    let ghost v = strings_view(list@);
    let mut r: Vec<String> = Vec::new();
    let mut i: usize = 0;
    assert(v.take(0) =~= Seq::<Seq<char>>::empty());
    assert(strings_view(r@) =~= Seq::<Seq<char>>::empty());
    while i < list.len()
        invariant
            i <= list.len(),
            v == strings_view(list@),
            strings_view(r@) == without(v.take(i as int), name@),
        decreases list.len() - i,
    {
        proof {
            assert(v.take(i + 1).drop_last() =~= v.take(i as int));
            assert(v.take(i + 1).last() == v[i as int]);
        }
        if !texts_equal(list[i].as_str(), name) {
            let ghost before = strings_view(r@);
            r.push(owned(list[i].as_str()));
            assert(strings_view(r@) =~= before.push(v[i as int]));
        }
        i = i + 1;
    }
    assert(v.take(list.len() as int) =~= v);
    r
}

fn add_names(list: &mut Vec<String>, add: &Vec<String>)
    ensures
        strings_view(final(list)@) == additions(strings_view(old(list)@), strings_view(add@)),
{
    let ghost start = strings_view(list@);
    let ghost a = strings_view(add@);
    let mut i: usize = 0;
    assert(a.take(0) =~= Seq::<Seq<char>>::empty());
    while i < add.len()
        invariant
            i <= add.len(),
            a == strings_view(add@),
            strings_view(list@) == additions(start, a.take(i as int)),
        decreases add.len() - i,
    {
        proof {
            assert(a.take(i + 1).drop_last() =~= a.take(i as int));
            assert(a.take(i + 1).last() == a[i as int]);
        }
        if !contains_text(list, add[i].as_str()) {
            let ghost before = strings_view(list@);
            list.push(owned(add[i].as_str()));
            assert(strings_view(list@) =~= before.push(a[i as int]));
        }
        i = i + 1;
    }
    assert(a.take(add.len() as int) =~= a);
}

fn to_refs(names: Vec<String>) -> (r: Vec<EnvironmentSecretRef>)
    ensures
        names_view(r@) == strings_view(names@),
{
    let mut r: Vec<EnvironmentSecretRef> = Vec::new();
    let mut i: usize = 0;
    while i < names.len()
        invariant
            i <= names.len(),
            names_view(r@) == strings_view(names@).take(i as int),
        decreases names.len() - i,
    {
        let ghost before = names_view(r@);
        let n = owned(names[i].as_str());
        assert(n@ == strings_view(names@)[i as int]);
        r.push(EnvironmentSecretRef { name: n });
        assert(names_view(r@) =~= before.push(n@));
        assert(names_view(r@) =~= strings_view(names@).take(i + 1));
        i = i + 1;
    }
    assert(strings_view(names@).take(names.len() as int) =~= strings_view(names@));
    r
}

fn ref_names(secrets: &[EnvironmentSecretRef]) -> (r: Vec<String>)
    ensures
        strings_view(r@) == names_view(secrets@),
{
    let mut r: Vec<String> = Vec::new();
    let mut i: usize = 0;
    while i < secrets.len()
        invariant
            i <= secrets.len(),
            strings_view(r@) == names_view(secrets@).take(i as int),
        decreases secrets.len() - i,
    {
        let ghost before = strings_view(r@);
        let n = owned(secrets[i].name.as_str());
        assert(n@ == names_view(secrets@)[i as int]);
        r.push(n);
        assert(strings_view(r@) =~= before.push(n@));
        assert(strings_view(r@) =~= names_view(secrets@).take(i + 1));
        i = i + 1;
    }
    assert(names_view(secrets@).take(secrets.len() as int) =~= names_view(secrets@));
    r
}

/// The secrets of a new environment: none given leaves the list absent (every
/// secret), else the names given, each once, in the order first given.
pub fn secrets_for_create(names: Vec<String>) -> (r: Option<Vec<EnvironmentSecretRef>>)
    ensures
        names@.len() == 0 <==> r is None,
        r matches Some(v) ==> names_view(v@) == dedup_names(strings_view(names@)),
{
    if names.len() == 0 {
        return None;
    }
    let ghost s = strings_view(names@);
    let mut kept: Vec<String> = Vec::new();
    let mut i: usize = 0;
    assert(s.take(0) =~= Seq::<Seq<char>>::empty());
    assert(strings_view(kept@) =~= Seq::<Seq<char>>::empty());
    while i < names.len()
        invariant
            i <= names.len(),
            s == strings_view(names@),
            strings_view(kept@) == dedup_names(s.take(i as int)),
        decreases names.len() - i,
    {
        proof {
            assert(s.take(i + 1).drop_last() =~= s.take(i as int));
            assert(s.take(i + 1).last() == s[i as int]);
        }
        if !contains_text(&kept, names[i].as_str()) {
            let ghost before = strings_view(kept@);
            kept.push(owned(names[i].as_str()));
            assert(strings_view(kept@) =~= before.push(s[i as int]));
        }
        i = i + 1;
    }
    assert(s.take(names.len() as int) =~= s);
    Some(to_refs(kept))
}

pub open spec fn update_view(u: SecretUpdate) -> (Seq<Seq<char>>, Seq<Seq<char>>, bool) {
    (
        match u.secrets {
            Some(v) => names_view(v@),
            None => Seq::empty(),
        },
        strings_view(u.missing_removals@),
        u.narrowed_from_all_secrets,
    )
}

/// Applies the secret flags to an environment's secrets (see
/// [`secret_flags_spec`]); an update always holds a list.
pub fn apply_secret_flags(current: Option<&[EnvironmentSecretRef]>, flags: SecretFlags) -> (r: Result<
    Option<SecretUpdate>,
    EnvironmentError,
>)
    ensures
        match secret_flags_spec(
            match current {
                Some(c) => Some(names_view(c@)),
                None => None,
            },
            strings_view(flags.add@),
            strings_view(flags.remove@),
            flags.remove_all,
        ) {
            Err(e) => r == Err::<Option<SecretUpdate>, EnvironmentError>(e),
            Ok(None) => r matches Ok(None),
            Ok(Some(u)) => r matches Ok(Some(got)) && got.secrets is Some && update_view(got) == u,
        },
{
    if flags.add.len() == 0 && flags.remove.len() == 0 && !flags.remove_all {
        return Ok(None);
    }
    if current.is_none() && flags.remove.len() > 0 && !flags.remove_all {
        return Err(EnvironmentError::RemoveFromAllSecrets);
    }
    let narrowed = current.is_none() && !flags.remove_all;
    let mut list: Vec<String> = if flags.remove_all {
        Vec::new()
    } else {
        match current {
            Some(c) => ref_names(c),
            None => Vec::new(),
        }
    };
    let ghost start = strings_view(list@);
    assert(start =~= (if flags.remove_all {
        Seq::<Seq<char>>::empty()
    } else {
        match current {
            Some(c) => names_view(c@),
            None => Seq::<Seq<char>>::empty(),
        }
    }));
    let mut missing: Vec<String> = Vec::new();
    if !flags.remove_all {
        let ghost rm = strings_view(flags.remove@);
        let mut i: usize = 0;
        assert(rm.take(0) =~= Seq::<Seq<char>>::empty());
        assert(strings_view(missing@) =~= Seq::<Seq<char>>::empty());
        while i < flags.remove.len()
            invariant
                i <= flags.remove.len(),
                rm == strings_view(flags.remove@),
                (strings_view(list@), strings_view(missing@)) == removals(start, rm.take(i as int)),
            decreases flags.remove.len() - i,
        {
            proof {
                assert(rm.take(i + 1).drop_last() =~= rm.take(i as int));
                assert(rm.take(i + 1).last() == rm[i as int]);
            }
            let name = flags.remove[i].as_str();
            if contains_text(&list, name) {
                list = without_name(&list, name);
            } else {
                let ghost before = strings_view(missing@);
                missing.push(owned(name));
                assert(strings_view(missing@) =~= before.push(rm[i as int]));
            }
            i = i + 1;
        }
        assert(rm.take(flags.remove.len() as int) =~= rm);
    } else {
        assert(strings_view(missing@) =~= Seq::<Seq<char>>::empty());
    }
    add_names(&mut list, &flags.add);
    Ok(Some(SecretUpdate { secrets: Some(to_refs(list)), missing_removals: missing, narrowed_from_all_secrets: narrowed }))
}

/// The names joined with ", ".
pub open spec fn joined_names(names: Seq<Seq<char>>) -> Seq<char>
    decreases names.len(),
{
    if names.len() == 0 {
        Seq::empty()
    } else if names.len() == 1 {
        names[0]
    } else {
        joined_names(names.drop_last()) + ", "@ + names.last()
    }
}

/// How an environment's secrets are shown: every secret, none, or their
/// names.
pub open spec fn display_secrets_spec(secrets: Option<Seq<Seq<char>>>) -> Seq<char> {
    match secrets {
        None => "All available secrets"@,
        Some(s) => if s.len() == 0 {
            "None"@
        } else {
            joined_names(s)
        },
    }
}

pub fn display_secrets(secrets: Option<&[EnvironmentSecretRef]>) -> (r: String)
    ensures
        r@ == display_secrets_spec(
            match secrets {
                Some(s) => Some(names_view(s@)),
                None => None,
            },
        ),
{
    match secrets {
        None => owned("All available secrets"),
        Some(s) => {
            if s.len() == 0 {
                return owned("None");
            }
            let ghost v = names_view(s@);
            let mut r = owned(s[0].name.as_str());
            let mut i: usize = 1;
            assert(v.take(1).drop_last() =~= Seq::<Seq<char>>::empty());
            while i < s.len()
                invariant
                    1 <= i <= s.len(),
                    v == names_view(s@),
                    r@ == joined_names(v.take(i as int)),
                decreases s.len() - i,
            {
                proof {
                    assert(v.take(i + 1).drop_last() =~= v.take(i as int));
                    assert(v.take(i + 1).last() == v[i as int]);
                }
                push_all(&mut r, ", ");
                push_all(&mut r, s[i].name.as_str());
                i = i + 1;
            }
            assert(v.take(s.len() as int) =~= v);
            r
        },
    }
}


proof fn lemma_push_contains(s: Seq<Seq<char>>, a: Seq<char>, x: Seq<char>)
    ensures
        s.push(a).contains(x) <==> s.contains(x) || x == a,
{
    if s.contains(x) {
        let k = choose|k: int| 0 <= k < s.len() && s[k] == x;
        assert(s.push(a)[k] == x);
    }
    if x == a {
        assert(s.push(a)[s.len() as int] == x);
    }
    if s.push(a).contains(x) {
        let k = choose|k: int| 0 <= k < s.push(a).len() && s.push(a)[k] == x;
        if k < s.len() {
            assert(s[k] == x);
        }
    }
}

proof fn lemma_without(list: Seq<Seq<char>>, name: Seq<char>, x: Seq<char>)
    ensures
        without(list, name).contains(x) <==> list.contains(x) && x != name,
    decreases list.len(),
{
    if list.len() > 0 {
        let init = list.drop_last();
        lemma_without(init, name, x);
        assert(list =~= init.push(list.last()));
        lemma_push_contains(init, list.last(), x);
        lemma_push_contains(without(init, name), list.last(), x);
    }
}

proof fn lemma_removals(list: Seq<Seq<char>>, remove: Seq<Seq<char>>, x: Seq<char>)
    ensures
        removals(list, remove).0.contains(x) ==> list.contains(x),
        remove.contains(x) ==> !removals(list, remove).0.contains(x),
    decreases remove.len(),
{
    if remove.len() > 0 {
        let init = remove.drop_last();
        lemma_removals(list, init, x);
        let l = removals(list, init).0;
        lemma_without(l, remove.last(), x);
        if remove.contains(x) && x != remove.last() {
            let k = choose|k: int| 0 <= k < remove.len() && remove[k] == x;
            assert(init[k] == x);
        }
    }
}

proof fn lemma_additions(list: Seq<Seq<char>>, add: Seq<Seq<char>>, x: Seq<char>)
    ensures
        additions(list, add).contains(x) <==> list.contains(x) || add.contains(x),
    decreases add.len(),
{
    if add.len() > 0 {
        let init = add.drop_last();
        lemma_additions(list, init, x);
        assert(add =~= init.push(add.last()));
        lemma_push_contains(init, add.last(), x);
        lemma_push_contains(additions(list, init), add.last(), x);
        lemma_additions(list, init, add.last());
    }
}

/// After the secret flags, the list holds exactly what it kept and what was
/// added: every added name is on it, and a removed name that was not added
/// again is gone; removing every secret leaves only the additions.
pub proof fn law_secret_flags_add_and_remove(
    current: Option<Seq<Seq<char>>>,
    add: Seq<Seq<char>>,
    remove: Seq<Seq<char>>,
    remove_all: bool,
    x: Seq<char>,
)
    requires
        secret_flags_spec(current, add, remove, remove_all) matches Ok(Some(_)),
    ensures
        ({
            let list = secret_flags_spec(current, add, remove, remove_all)->Ok_0->Some_0.0;
            &&& add.contains(x) ==> list.contains(x)
            &&& remove.contains(x) && !add.contains(x) ==> !list.contains(x)
            &&& remove_all ==> (list.contains(x) <==> add.contains(x))
        }),
{
    let start = if remove_all {
        Seq::<Seq<char>>::empty()
    } else {
        match current {
            Some(c) => c,
            None => Seq::empty(),
        }
    };
    let kept = if remove_all {
        start
    } else {
        removals(start, remove).0
    };
    lemma_additions(kept, add, x);
    if !remove_all {
        lemma_removals(start, remove, x);
    }
}

proof fn lemma_dedup(s: Seq<Seq<char>>, x: Seq<char>)
    ensures
        dedup_names(s).contains(x) <==> s.contains(x),
    decreases s.len(),
{
    if s.len() > 0 {
        let init = s.drop_last();
        lemma_dedup(init, x);
        assert(s =~= init.push(s.last()));
        lemma_push_contains(init, s.last(), x);
        lemma_push_contains(dedup_names(init), s.last(), x);
        lemma_dedup(init, s.last());
    }
}

proof fn lemma_dedup_unique(s: Seq<Seq<char>>)
    ensures
        forall|i: int, j: int| 0 <= i < j < dedup_names(s).len() ==> dedup_names(s)[i] != dedup_names(s)[j],
    decreases s.len(),
{
    if s.len() > 0 {
        lemma_dedup_unique(s.drop_last());
        let r = dedup_names(s.drop_last());
        if !r.contains(s.last()) {
            assert forall|i: int, j: int| 0 <= i < j < r.push(s.last()).len() implies r.push(s.last())[i] != r.push(
                s.last(),
            )[j] by {
                if j == r.len() {
                    if r[i] == s.last() {
                        assert(r.contains(s.last()));
                    }
                }
            }
        }
    }
}

/// A new environment's secret list names each given secret exactly once.
pub proof fn law_created_secrets_are_distinct(names: Seq<Seq<char>>, x: Seq<char>)
    ensures
        dedup_names(names).contains(x) <==> names.contains(x),
        forall|i: int, j: int| 0 <= i < j < dedup_names(names).len() ==> dedup_names(names)[i] != dedup_names(names)[j],
{
    lemma_dedup(names, x);
    lemma_dedup_unique(names);
}

} // verus!
