//! What holds of the reads and writes of a profile's parameters across calls.

use vstd::prelude::*;
use crate::config::{ParamView, ValueView, value_text, same_kind, first_named, is_first_named, none_named, lemma_first_named};
use crate::config_map::ConfigView;
use crate::profile::{lookup, stored, set_outcome};

verus! {

proof fn lemma_single(p: ParamView, name: Seq<char>)
    ensures
        p.0 == name ==> first_named(seq![p], name) == Some(0int),
        p.0 != name ==> first_named(seq![p], name) is None,
{
    lemma_first_named(seq![p], name);
    if p.0 == name {
        assert(is_first_named(seq![p], name, 0));
    }
}

proof fn lemma_push_first(ps: Seq<ParamView>, p: ParamView, name: Seq<char>)
    ensures
        p.0 != name ==> first_named(ps.push(p), name) == first_named(ps, name),
        p.0 == name && none_named(ps, name) ==> first_named(ps.push(p), name) == Some(ps.len() as int),
{
    let qs = ps.push(p);
    lemma_first_named(ps, name);
    lemma_first_named(qs, name);
    if p.0 != name {
        assert forall|i: int| is_first_named(ps, name, i) <==> is_first_named(qs, name, i) by {
            if is_first_named(ps, name, i) {
                assert(qs[i] == ps[i]);
            }
            if is_first_named(qs, name, i) {
                assert(i != ps.len());
                assert(forall|j: int| 0 <= j < i ==> qs[j] == ps[j]);
            }
        }
        if first_named(ps, name) is None {
            assert forall|j: int| 0 <= j < qs.len() implies qs[j].0 != name by {
                if j < ps.len() {
                    assert(qs[j] == ps[j]);
                }
            }
        }
    } else if none_named(ps, name) {
        assert forall|j: int| 0 <= j < ps.len() implies qs[j].0 != name by {
            assert(qs[j] == ps[j]);
        }
        assert(is_first_named(qs, name, ps.len() as int));
    }
}

proof fn lemma_update_first(ps: Seq<ParamView>, i: int, p: ParamView, name: Seq<char>)
    requires
        is_first_named(ps, p.0, i),
    ensures
        first_named(ps.update(i, p), name) == first_named(ps, name),
{
    let qs = ps.update(i, p);
    lemma_first_named(ps, name);
    lemma_first_named(qs, name);
    assert forall|k: int| is_first_named(ps, name, k) <==> is_first_named(qs, name, k) by {
        assert(forall|j: int| 0 <= j < ps.len() ==> qs[j].0 == ps[j].0);
    }
    assert(none_named(ps, name) <==> none_named(qs, name)) by {
        assert(forall|j: int| 0 <= j < ps.len() ==> qs[j].0 == ps[j].0);
    }
}

/// A value that was set is what is read back: once setting parameter `p`
/// of `script` succeeds, reading that name of that script gives `p`'s value.
pub proof fn law_read_after_write(cfg: Option<ConfigView>, script: Seq<char>, p: ParamView)
    requires
        set_outcome(cfg, script, p) is Ok,
    ensures
        lookup(Some(set_outcome(cfg, script, p)->Ok_0), script, p.0) == Some(p.1),
{
    let m = cfg->Some_0;
    let m2 = set_outcome(cfg, script, p)->Ok_0;
    if !m.contains_key(script) {
        lemma_single(p, p.0);
        assert(m2[script] == seq![p]);
    } else {
        let ps = m[script];
        lemma_first_named(ps, p.0);
        match first_named(ps, p.0) {
            None => {
                lemma_push_first(ps, p, p.0);
                assert(ps.push(p)[ps.len() as int] == p);
            },
            Some(i) => {
                lemma_update_first(ps, i, p, p.0);
            },
        }
    }
}

/// Setting one parameter leaves every other one as it was: after setting
/// `p` of `script` succeeds, any other script, or any other name of the same
/// script, reads as before.
pub proof fn law_write_keeps_others(
    cfg: Option<ConfigView>,
    script: Seq<char>,
    p: ParamView,
    other_script: Seq<char>,
    other_name: Seq<char>,
)
    requires
        set_outcome(cfg, script, p) is Ok,
        other_script != script || other_name != p.0,
    ensures
        lookup(Some(set_outcome(cfg, script, p)->Ok_0), other_script, other_name) == lookup(
            cfg,
            other_script,
            other_name,
        ),
{
    let m = cfg->Some_0;
    let m2 = set_outcome(cfg, script, p)->Ok_0;
    if other_script == script {
        if !m.contains_key(script) {
            lemma_single(p, other_name);
        } else {
            let ps = m[script];
            lemma_first_named(ps, p.0);
            match first_named(ps, p.0) {
                None => {
                    lemma_push_first(ps, p, other_name);
                    let qs = ps.push(p);
                    lemma_first_named(ps, other_name);
                    if let Some(k) = first_named(ps, other_name) {
                        assert(qs[k] == ps[k]);
                    }
                },
                Some(i) => {
                    lemma_update_first(ps, i, p, other_name);
                    let qs = ps.update(i, p);
                    lemma_first_named(ps, other_name);
                    if let Some(k) = first_named(ps, other_name) {
                        assert(k != i);
                        assert(qs[k] == ps[k]);
                    }
                },
            }
        }
    }
}

/// Setting a parameter fails exactly when the profile has no configuration,
/// or when the name already holds a value of another type.
pub proof fn law_write_fails_on_type_conflict(cfg: Option<ConfigView>, script: Seq<char>, p: ParamView)
    ensures
        set_outcome(cfg, script, p) == Err::<ConfigView, bool>(true) <==> cfg is None,
        set_outcome(cfg, script, p) == Err::<ConfigView, bool>(false) <==> (cfg is Some && (lookup(cfg, script, p.0) matches Some(w) && !same_kind(w, p.1))),
{
    if cfg is Some {
        let m = cfg->Some_0;
        if m.contains_key(script) {
            lemma_first_named(m[script], p.0);
        }
    }
}

/// The last write wins: setting a parameter and then setting the same name
/// again with a value of the same type leaves the configuration as if only
/// the second value had been set.
pub proof fn law_last_write_wins(cfg: Option<ConfigView>, script: Seq<char>, p: ParamView, q: ParamView)
    requires
        set_outcome(cfg, script, p) is Ok,
        q.0 == p.0,
        same_kind(p.1, q.1),
    ensures
        set_outcome(Some(set_outcome(cfg, script, p)->Ok_0), script, q) == set_outcome(cfg, script, q),
{
    let m = cfg->Some_0;
    let m2 = set_outcome(cfg, script, p)->Ok_0;
    if !m.contains_key(script) {
        lemma_single(p, p.0);
        assert(seq![p].update(0, q) =~= seq![q]);
        assert(m2.insert(script, seq![p].update(0, q)) =~= m.insert(script, seq![q]));
    } else {
        let ps = m[script];
        lemma_first_named(ps, p.0);
        match first_named(ps, p.0) {
            None => {
                lemma_push_first(ps, p, p.0);
                assert(ps.push(p).update(ps.len() as int, q) =~= ps.push(q));
                assert(m2.insert(script, ps.push(p).update(ps.len() as int, q)) =~= m.insert(script, ps.push(q)));
            },
            Some(i) => {
                lemma_update_first(ps, i, p, p.0);
                assert(ps.update(i, p).update(i, q) =~= ps.update(i, q));
                assert(m2.insert(script, ps.update(i, p).update(i, q)) =~= m.insert(script, ps.update(i, q)));
            },
        }
    }
}

/// Writing a value of the type a parameter already holds always succeeds, as
/// does writing a name the script does not hold yet: once a profile has a
/// configuration, a write is refused only for a type conflict.
pub proof fn law_same_type_write_succeeds(cfg: Option<ConfigView>, script: Seq<char>, p: ParamView)
    requires
        cfg is Some,
        match lookup(cfg, script, p.0) {
            None => true,
            Some(w) => {
                ||| (w is Int && p.1 is Int)
                ||| (w is Float && p.1 is Float)
                ||| (w is Bool && p.1 is Bool)
                ||| (w is Text && p.1 is Text)
                ||| (w is Color && p.1 is Color)
            },
        },
    ensures
        set_outcome(cfg, script, p) is Ok,
{
    let m = cfg->Some_0;
    if m.contains_key(script) {
        lemma_first_named(m[script], p.0);
    }
}

/// A boolean reads as the text `true` when it is true and `false` when it
/// is false, and the two texts differ.
pub proof fn law_bool_texts(b: bool)
    ensures
        b ==> value_text(ValueView::Bool(b)) == Some("true"@),
        !b ==> value_text(ValueView::Bool(b)) == Some("false"@),
        "true"@ != "false"@,
{
    reveal_strlit("true");
    reveal_strlit("false");
    assert("true"@[0] != "false"@[0]);
}

} // verus!
