//! The profile catalogue: which files of the profiles directory are profiles,
//! and under which names they are listed and stored.
use vstd::prelude::*;
use crate::text::{concatenated, ends_with, has_suffix, remove_all, remove_all_occurrences, views};

verus! {

/// The suffix of a stored profile's file name.
pub open spec fn json_suffix() -> Seq<char> {
    ".json"@
}

/// Whether a file name has the extension `json`: it ends with `.json` and the
/// part before that dot is not empty (so `.json` alone has no extension).
pub open spec fn has_json_extension(file_name: Seq<char>) -> bool {
    file_name.len() > json_suffix().len() && has_suffix(file_name, json_suffix())
}

/// The profile that a file of the profiles directory holds, if it holds one:
/// its name with every `.json` taken out.
pub open spec fn spec_profile_of_file(file_name: Seq<char>) -> Option<Seq<char>> {
    if has_json_extension(file_name) {
        Some(remove_all(file_name, json_suffix()))
    } else {
        None
    }
}

/// The profiles listed for the file names of a directory, in the same order.
pub open spec fn spec_profile_names(file_names: Seq<Seq<char>>) -> Seq<Seq<char>>
    decreases file_names.len(),
{
    if file_names.len() == 0 {
        Seq::empty()
    } else {
        let rest = spec_profile_names(file_names.drop_last());
        match spec_profile_of_file(file_names.last()) {
            Some(name) => rest.push(name),
            None => rest,
        }
    }
}

/// The name of the file that stores profile `name`: `name` followed by `.json`.
pub open spec fn spec_profile_file_name(name: Seq<char>) -> Seq<char> {
    name + json_suffix()
}

/// The name of the file that stores profile `name`.
pub fn profile_file_name(name: &str) -> (file_name: String)
    ensures
        file_name@ == spec_profile_file_name(name@),
{
    concatenated(name, ".json")
}

/// The profile that a file of the profiles directory holds, if it holds one.
pub fn profile_of_file(file_name: &str) -> (r: Option<String>)
    ensures
        match r {
            Some(name) => spec_profile_of_file(file_name@) == Some(name@),
            None => spec_profile_of_file(file_name@) is None,
        },
{
    proof {
        reveal_strlit(".json");
    }
    let suffix = ".json";
    if suffix.unicode_len() < file_name.unicode_len() && ends_with(file_name, suffix) {
        Some(remove_all_occurrences(file_name, suffix))
    } else {
        None
    }
}

/// The profiles listed for the names of the files in the profiles directory,
/// in the order of the files.
pub fn profile_names(file_names: &Vec<String>) -> (names: Vec<String>)
    ensures
        views(names@) == spec_profile_names(views(file_names@)),
{
    let mut names: Vec<String> = Vec::new();
    let mut i: usize = 0;
    while i < file_names.len()
        invariant
            i <= file_names.len(),
            views(names@) == spec_profile_names(views(file_names@).take(i as int)),
        decreases file_names.len() - i,
    {
        let ghost before = views(names@);
        let ghost taken = views(file_names@).take(i + 1);
        assert(taken.drop_last() =~= views(file_names@).take(i as int));
        assert(taken.last() == file_names@[i as int]@);
        match profile_of_file(file_names[i].as_str()) {
            Some(name) => {
                names.push(name);
                assert(views(names@) =~= before.push(names@.last()@));
            },
            None => {},
        }
        i = i + 1;
    }
    assert(views(file_names@).take(file_names.len() as int) =~= views(file_names@));
    names
}


/// Whether `pat` occurs somewhere in `s`.
pub open spec fn has_infix(s: Seq<char>, pat: Seq<char>) -> bool {
    exists|i: int| 0 <= i && i + pat.len() <= s.len() && #[trigger] s.subrange(i, i + pat.len()) == pat
}

proof fn lemma_remove_suffix_only(n: Seq<char>)
    requires
        !has_infix(n, json_suffix()),
    ensures
        remove_all(n + json_suffix(), json_suffix()) == n,
    decreases n.len(),
{
    reveal_strlit(".json");
    let p = json_suffix();
    assert(p =~= seq!['.', 'j', 's', 'o', 'n']);
    let s = n + p;
    if n.len() == 0 {
        assert(s =~= p);
        assert(s.take(5) =~= p);
        assert(s.skip(5) =~= Seq::<char>::empty());
        assert(remove_all(s.skip(5), p) == s.skip(5));
        assert(remove_all(s, p) == remove_all(s.skip(5), p));
    } else {
        assert(s.take(5) != p) by {
            if n.len() >= 5 {
                let w = n.subrange(0, 0int + json_suffix().len());
                assert(w != p);
                assert(s.take(5) =~= w);
            } else {
                let k = n.len() as int;
                assert(s[k] == '.');
                assert(p[1] == 'j' && p[2] == 's' && p[3] == 'o' && p[4] == 'n');
                if s.take(5) == p {
                    assert(s.take(5)[k] == p[k]);
                }
            }
        }
        let t = n.skip(1);
        assert(!has_infix(t, p)) by {
            if has_infix(t, p) {
                let i = choose|i: int| 0 <= i && i + p.len() <= t.len() && #[trigger] t.subrange(i, i + p.len()) == p;
                assert(n.subrange(i + 1, i + 1 + p.len()) =~= t.subrange(i, i + p.len()));
            }
        }
        lemma_remove_suffix_only(t);
        assert(s.skip(1) =~= t + p);
        assert(seq![s[0]] + t =~= n);
        assert(remove_all(s, p) == seq![s[0]] + remove_all(s.skip(1), p));
    }
}

/// A stored profile is listed under its own name: the file that stores a
/// profile is listed as that profile, for every non-empty name that does
/// not itself hold `.json`.
pub proof fn law_stored_profile_is_listed(name: Seq<char>)
    requires
        name.len() > 0,
        !has_infix(name, json_suffix()),
    ensures
        spec_profile_of_file(spec_profile_file_name(name)) == Some(name),
        spec_profile_names(seq![spec_profile_file_name(name)]) == seq![name],
{
    reveal_strlit(".json");
    let f = spec_profile_file_name(name);
    assert(f.skip(f.len() - json_suffix().len()) =~= json_suffix());
    lemma_remove_suffix_only(name);
    let one = seq![f];
    assert(one.drop_last() =~= Seq::<Seq<char>>::empty());
    assert(one.last() == f);
    assert(spec_profile_names(one.drop_last()) == Seq::<Seq<char>>::empty());
    assert(spec_profile_of_file(f) == Some(name));
    assert(spec_profile_names(one) == spec_profile_names(one.drop_last()).push(name));
    assert(Seq::<Seq<char>>::empty().push(name) =~= seq![name]);
}

/// A file holds a profile exactly when its name has more than five
/// characters and ends with `.json`.
pub proof fn law_which_files_are_profiles(file_name: Seq<char>)
    ensures
        spec_profile_of_file(file_name) is Some <==> (file_name.len() >= 6 && file_name.subrange(
            file_name.len() - 5,
            file_name.len() as int,
        ) == seq!['.', 'j', 's', 'o', 'n']),
{
    reveal_strlit(".json");
    assert(json_suffix() =~= seq!['.', 'j', 's', 'o', 'n']);
    if file_name.len() >= 6 {
        assert(file_name.skip(file_name.len() - 5) =~= file_name.subrange(
            file_name.len() - 5,
            file_name.len() as int,
        ));
    }
}

/// Listing two groups of files lists the first group's profiles, then the
/// second's: the listing keeps the order of the files.
pub proof fn law_listing_keeps_file_order(first: Seq<Seq<char>>, second: Seq<Seq<char>>)
    ensures
        spec_profile_names(first + second) == spec_profile_names(first) + spec_profile_names(
            second,
        ),
    decreases second.len(),
{
    if second.len() == 0 {
        assert(first + second =~= first);
        assert(spec_profile_names(first) + spec_profile_names(second) =~= spec_profile_names(first));
    } else {
        law_listing_keeps_file_order(first, second.drop_last());
        assert((first + second).drop_last() =~= first + second.drop_last());
        assert((first + second).last() == second.last());
        let a = spec_profile_names(first);
        let b = spec_profile_names(second.drop_last());
        match spec_profile_of_file(second.last()) {
            Some(n) => {
                assert((a + b).push(n) =~= a + b.push(n));
            },
            None => {},
        }
    }
}
} // verus!
