//! Choosing among what a profile directory holds: which files are profiles,
//! which profiles loaded, and which profile has a given identifier.

use vstd::prelude::*;
use crate::profile::{Profile, ProfileError, has_id, is_first_with_id};

verus! {

/// The file name of a path: what follows its last `/` (all of it when it has
/// none).
pub open spec fn file_name(p: Seq<char>) -> Seq<char>
    decreases p.len(),
{
    if p.len() == 0 {
        p
    } else if p.last() == '/' {
        Seq::<char>::empty()
    } else {
        file_name(p.drop_last()).push(p.last())
    }
}

/// Whether a path names a profile: its file name has the extension
/// `profile`, that is, it ends in `.profile` after at least one other
/// character.
pub open spec fn is_profile_path(p: Seq<char>) -> bool {
    let f = file_name(p);
    f.len() > 8 && f.skip(f.len() - 8) == ".profile"@
}

/// The profile paths among `s`, in their order.
pub open spec fn profile_paths(s: Seq<String>) -> Seq<Seq<char>>
    decreases s.len(),
{
    if s.len() == 0 {
        Seq::<Seq<char>>::empty()
    } else {
        (if is_profile_path(s[0]@) { seq![s[0]@] } else { Seq::<Seq<char>>::empty() })
            + profile_paths(s.drop_first())
    }
}

/// The profiles among loading outcomes, in their order.
pub open spec fn ok_profiles(s: Seq<Result<Profile, ProfileError>>) -> Seq<Profile>
    decreases s.len(),
{
    if s.len() == 0 {
        Seq::<Profile>::empty()
    } else {
        (match s[0] {
            Ok(p) => seq![p],
            Err(_) => Seq::<Profile>::empty(),
        }) + ok_profiles(s.drop_first())
    }
}

proof fn lemma_file_name_suffix(p: Seq<char>, k: int)
    requires
        0 <= k <= p.len(),
        forall|j: int| p.len() - k <= j < p.len() ==> p[j] != '/',
    ensures
        file_name(p) == file_name(p.take(p.len() - k)) + p.skip(p.len() - k),
    decreases k,
{
    if k == 0 {
        assert(p.take(p.len() as int) =~= p);
        assert(p.skip(p.len() as int) =~= Seq::<char>::empty());
    } else {
        let q = p.drop_last();
        lemma_file_name_suffix(q, k - 1);
        assert(q.take(q.len() - (k - 1)) =~= p.take(p.len() - k));
        assert(q.skip(q.len() - (k - 1)).push(p.last()) =~= p.skip(p.len() - k));
    }
}

/// Whether `path` names a profile file.
fn is_profile_file(path: &str) -> (r: bool)
    ensures
        r == is_profile_path(path@),
{
    let n: usize = path.unicode_len();
    if n < 9 {
        proof {
            lemma_short_not_profile(path@);
        }
        return false;
    }
    let ext = ".profile";
    proof {
        reveal_strlit(".profile");
    }
    let mut k: usize = 0;
    while k < 8
        invariant
            n == path@.len(),
            n >= 9,
            k <= 8,
            ext@ == ".profile"@,
            ext@.len() == 8,
            forall|j: int| 0 <= j < k ==> path@[n - 8 + j] == ext@[j],
        decreases 8 - k,
    {
        if path.get_char(n - 8 + k) != ext.get_char(k) {
            proof {
                lemma_profile_suffix(path@);
                assert(path@.skip(n - 8)[k as int] != ".profile"@[k as int]);
            }
            return false;
        }
        k = k + 1;
    }
    let before = path.get_char(n - 9);
    proof {
        lemma_profile_suffix(path@);
        assert(path@.skip(n - 8) =~= ".profile"@);
    }
    before != '/'
}

proof fn lemma_short_not_profile(p: Seq<char>)
    requires
        p.len() < 9,
    ensures
        !is_profile_path(p),
{
    lemma_file_name_len(p);
}

proof fn lemma_file_name_len(p: Seq<char>)
    ensures
        file_name(p).len() <= p.len(),
    decreases p.len(),
{
    if p.len() > 0 && p.last() != '/' {
        lemma_file_name_len(p.drop_last());
    }
}

/// For a path of at least nine characters: it names a profile exactly when
/// its last eight characters are `.profile` and the one before is not `/`.
proof fn lemma_profile_suffix(p: Seq<char>)
    requires
        p.len() >= 9,
    ensures
        is_profile_path(p) <==> (p.skip(p.len() - 8) == ".profile"@ && p[p.len() - 9] != '/'),
{
    reveal_strlit(".profile");
    let n = p.len();
    if p.skip(n - 8) == ".profile"@ {
        assert forall|j: int| n - 8 <= j < n implies p[j] != '/' by {
            assert(p[j] == p.skip(n - 8)[j - (n - 8)]);
        }
        lemma_file_name_suffix(p, 8);
        let q = p.take(n - 8);
        let f = file_name(p);
        assert(f == file_name(q) + p.skip(n - 8));
        assert(f.skip(f.len() - 8) =~= p.skip(n - 8));
        assert(q.last() == p[n - 9]);
        if p[n - 9] != '/' {
            assert(file_name(q) == file_name(q.drop_last()).push(q.last()));
        } else {
            assert(file_name(q) == Seq::<char>::empty());
        }
    } else {
        let f = file_name(p);
        if f.len() > 8 && f.skip(f.len() - 8) == ".profile"@ {
            // the last eight characters of the file name are those of the path
            lemma_file_name_tail(p, 8);
            assert(f.skip(f.len() - 8) =~= p.skip(n - 8));
        }
    }
}

proof fn lemma_file_name_tail(p: Seq<char>, k: int)
    requires
        0 <= k <= file_name(p).len(),
    ensures
        file_name(p).skip(file_name(p).len() - k) == p.skip(p.len() - k),
    decreases k,
{
    lemma_file_name_len(p);
    if k > 0 {
        let q = p.drop_last();
        assert(p.last() != '/');
        lemma_file_name_tail(q, k - 1);
        assert(file_name(p) == file_name(q).push(p.last()));
        assert(file_name(p).skip(file_name(p).len() - k) =~= file_name(q).skip(file_name(q).len() - (k - 1)).push(p.last()));
        assert(p.skip(p.len() - k) =~= q.skip(q.len() - (k - 1)).push(p.last()));
    } else {
        assert(file_name(p).skip(file_name(p).len() - k) =~= Seq::<char>::empty());
        assert(p.skip(p.len() - k) =~= Seq::<char>::empty());
    }
}

/// The profile files among the entries of a directory, in their order.
pub fn get_profile_files(paths: Vec<String>) -> (r: Result<Vec<String>, ProfileError>)
    ensures
        r matches Ok(v) && v@.map_values(|s: String| s@) == profile_paths(paths@),
{
    let ghost all = paths@;
    let mut rest = paths;
    let mut result: Vec<String> = Vec::new();
    while rest.len() > 0
        invariant
            result@.map_values(|s: String| s@) + profile_paths(rest@) == profile_paths(all),
        decreases rest@.len(),
    {
        let ghost before = rest@;
        let ghost kept = result@.map_values(|s: String| s@);
        let x = rest.remove(0);
        proof {
            assert(rest@ =~= before.drop_first());
        }
        if is_profile_file(x.as_str()) {
            result.push(x);
            proof {
                assert(result@.map_values(|s: String| s@) =~= kept + seq![before[0]@]);
            }
        }
        proof {
            assert(kept + profile_paths(before) == profile_paths(all));
        }
    }
    Ok(result)
}

/// The profiles that loaded, in their order; those that failed to load are
/// left out.
pub fn get_profiles(loaded: Vec<Result<Profile, ProfileError>>) -> (r: Result<Vec<Profile>, ProfileError>)
    ensures
        r matches Ok(v) && v@ == ok_profiles(loaded@),
{
    let ghost all = loaded@;
    let mut rest = loaded;
    let mut result: Vec<Profile> = Vec::new();
    while rest.len() > 0
        invariant
            result@ + ok_profiles(rest@) == ok_profiles(all),
        decreases rest@.len(),
    {
        let ghost before = rest@;
        let ghost kept = result@;
        let x = rest.remove(0);
        proof {
            assert(rest@ =~= before.drop_first());
        }
        match x {
            Ok(p) => {
                result.push(p);
            },
            Err(_) => {},
        }
        proof {
            assert(kept + ok_profiles(before) == ok_profiles(all));
        }
    }
    proof {
        assert(result@ + Seq::<Profile>::empty() =~= result@);
    }
    Ok(result)
}

/// The file of the first loaded profile whose identifier is `uuid`, if any.
pub fn find_path_by_uuid(uuid: u128, loaded: Vec<Result<Profile, ProfileError>>) -> (r: Option<String>)
    ensures
        r is Some <==> exists|i: int| 0 <= i < loaded@.len() && has_id(loaded@[i], uuid),
        r matches Some(f) ==> exists|i: int|
            is_first_with_id(loaded@, uuid, i) && f@ == loaded@[i]->Ok_0.profile_file@,
{
    match Profile::find_by_uuid(uuid, loaded) {
        Ok(p) => Some(p.profile_file),
        Err(_) => None,
    }
}

/// Every profile that loaded is kept: the profiles kept are as many as the
/// loading outcomes that succeeded, and each profile that loaded is among them.
pub proof fn law_every_loaded_profile_is_kept(s: Seq<Result<Profile, ProfileError>>)
    ensures
        ok_profiles(s).len() == s.filter(|r: Result<Profile, ProfileError>| r is Ok).len(),
        forall|i: int| 0 <= i < s.len() && s[i] is Ok ==> ok_profiles(s).contains(#[trigger] s[i]->Ok_0),
    decreases s.len(),
{
    let pred = |r: Result<Profile, ProfileError>| r is Ok;
    if s.len() > 0 {
        let t = s.drop_first();
        law_every_loaded_profile_is_kept(t);
        assert(s =~= seq![s[0]] + t);
        t.lemma_filter_prepend(s[0], pred);
        let head = match s[0] {
            Ok(p) => seq![p],
            Err(_) => Seq::<Profile>::empty(),
        };
        assert(ok_profiles(s) == head + ok_profiles(t));
        assert forall|i: int| 0 <= i < s.len() && s[i] is Ok implies ok_profiles(s).contains(#[trigger] s[i]->Ok_0) by {
            if i == 0 {
                assert(ok_profiles(s)[0] == s[0]->Ok_0);
            } else {
                assert(s[i] == t[i - 1]);
                let k = choose|k: int| 0 <= k < ok_profiles(t).len() && ok_profiles(t)[k] == t[i - 1]->Ok_0;
                assert(ok_profiles(s)[head.len() + k] == ok_profiles(t)[k]);
            }
        }
    } else {
        reveal(Seq::filter);
    }
}

} // verus!
