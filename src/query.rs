use vstd::prelude::*;
use vstd::string::StringExecFns;

use crate::config::{default_lang, file_selected, selects, target_language, MdxFile};
use crate::redirect::{is_redirect, is_redirect_def, redirect_target, redirect_target_of};
use crate::store::{exact_hits, pattern_hits, HitView, IndexStore};

verus! {

/// A configured dictionary with its index store; `None` when the store could
/// not be opened, in which case the dictionary is skipped.
pub struct Dictionary {
    pub file: MdxFile,
    pub store: Option<IndexStore>,
}

/// Redirect chains are followed to this depth; one level deeper gives up.
pub open spec fn max_depth() -> nat {
    5
}

pub open spec fn not_found_text() -> Seq<char> {
    "not found"@
}

pub open spec fn too_many_text() -> Seq<char> {
    "Error: Too many redirects"@
}

pub open spec fn separator() -> Seq<char> {
    "\n\n=== Next Entry ===\n\n"@
}

/// The parts joined with the separator between neighbours.
pub open spec fn join(parts: Seq<Seq<char>>) -> Seq<char>
    decreases parts.len(),
{
    if parts.len() == 0 {
        seq![]
    } else if parts.len() == 1 {
        parts[0]
    } else {
        join(parts.drop_last()) + separator() + parts.last()
    }
}

pub open spec fn hit_defs(hs: Seq<HitView>) -> Seq<Seq<char>> {
    hs.map_values(|h: HitView| h.1)
}

/// The definitions one dictionary yields for `w`: its exact hits, or, when
/// there are none, its bracket-pattern hits.
pub open spec fn dictionary_defs(d: Dictionary, w: Seq<char>) -> Seq<Seq<char>> {
    match d.store {
        None => seq![],
        Some(s) => if exact_hits(s@, w).len() > 0 {
            hit_defs(exact_hits(s@, w))
        } else {
            hit_defs(pattern_hits(s@, w))
        },
    }
}

/// The definitions all dictionaries selected for `target` yield for `w`, in
/// dictionary order.
pub open spec fn gathered(ds: Seq<Dictionary>, w: Seq<char>, target: Seq<char>) -> Seq<Seq<char>>
    decreases ds.len(),
{
    if ds.len() == 0 {
        seq![]
    } else {
        let prev = gathered(ds.drop_last(), w, target);
        if file_selected(ds.last().file, target) {
            prev + dictionary_defs(ds.last(), w)
        } else {
            prev
        }
    }
}

/// The definitions that are content, in order.
pub open spec fn direct_defs(hs: Seq<Seq<char>>) -> Seq<Seq<char>>
    decreases hs.len(),
{
    if hs.len() == 0 {
        seq![]
    } else if is_redirect(hs.last()) {
        direct_defs(hs.drop_last())
    } else {
        direct_defs(hs.drop_last()).push(hs.last())
    }
}

/// The headwords that redirect definitions point at, in order.
pub open spec fn redirect_targets(hs: Seq<Seq<char>>) -> Seq<Seq<char>>
    decreases hs.len(),
{
    if hs.len() == 0 {
        seq![]
    } else if is_redirect(hs.last()) {
        redirect_targets(hs.drop_last()).push(redirect_target(hs.last()))
    } else {
        redirect_targets(hs.drop_last())
    }
}

/// The answer for `w` at redirect depth `depth`: past the bound, the
/// too-many-redirects text; otherwise the direct definitions followed by what
/// each redirect target resolves to (those found), joined, or "not found".
pub open spec fn resolve_at(ds: Seq<Dictionary>, w: Seq<char>, depth: nat, target: Seq<char>) -> Seq<
    char,
>
    decreases 6 - depth, 0nat,
{
    if depth > max_depth() {
        too_many_text()
    } else {
        let hs = gathered(ds, w, target);
        let all = direct_defs(hs) + resolve_all(ds, redirect_targets(hs), depth + 1, target);
        if all.len() > 0 {
            join(all)
        } else {
            not_found_text()
        }
    }
}

/// What each of `ts` resolves to at depth `depth`, leaving out "not found".
pub open spec fn resolve_all(
    ds: Seq<Dictionary>,
    ts: Seq<Seq<char>>,
    depth: nat,
    target: Seq<char>,
) -> Seq<Seq<char>>
    decreases 6 - depth, ts.len() + 1,
{
    if ts.len() == 0 {
        seq![]
    } else {
        let prev = resolve_all(ds, ts.drop_last(), depth, target);
        let r = resolve_at(ds, ts.last(), depth, target);
        if r == not_found_text() {
            prev
        } else {
            prev.push(r)
        }
    }
}

/// The answer to a query for `w` in language `lang`.
pub open spec fn resolve(ds: Seq<Dictionary>, w: Seq<char>, lang: Option<Seq<char>>) -> Seq<char> {
    resolve_at(ds, w, 0, target_language(lang))
}

proof fn lemma_gathered_without(ds: Seq<Dictionary>, k: int, w: Seq<char>, target: Seq<char>)
    requires
        0 <= k < ds.len(),
        !file_selected(ds[k].file, target),
    ensures
        gathered(ds, w, target) == gathered(ds.remove(k), w, target),
    decreases ds.len(),
{
    if k == ds.len() - 1 {
        assert(ds.remove(k) =~= ds.drop_last());
    } else {
        let d2 = ds.remove(k);
        assert(d2.drop_last() =~= ds.drop_last().remove(k));
        assert(d2.last() == ds.last());
        lemma_gathered_without(ds.drop_last(), k, w, target);
    }
}

proof fn lemma_resolve_at_same(
    ds: Seq<Dictionary>,
    ds2: Seq<Dictionary>,
    w: Seq<char>,
    depth: nat,
    target: Seq<char>,
)
    requires
        forall|v: Seq<char>| #[trigger] gathered(ds, v, target) == gathered(ds2, v, target),
    ensures
        resolve_at(ds, w, depth, target) == resolve_at(ds2, w, depth, target),
    decreases 6 - depth, 0nat,
{
    if depth <= max_depth() {
        let hs = gathered(ds, w, target);
        assert(hs == gathered(ds2, w, target));
        lemma_resolve_all_same(ds, ds2, redirect_targets(hs), depth + 1, target);
    }
}

proof fn lemma_resolve_all_same(
    ds: Seq<Dictionary>,
    ds2: Seq<Dictionary>,
    ts: Seq<Seq<char>>,
    depth: nat,
    target: Seq<char>,
)
    requires
        forall|v: Seq<char>| #[trigger] gathered(ds, v, target) == gathered(ds2, v, target),
    ensures
        resolve_all(ds, ts, depth, target) == resolve_all(ds2, ts, depth, target),
    decreases 6 - depth, ts.len() + 1,
{
    if ts.len() > 0 {
        lemma_resolve_all_same(ds, ds2, ts.drop_last(), depth, target);
        lemma_resolve_at_same(ds, ds2, ts.last(), depth, target);
    }
}

/// A dictionary not selected for the query's language (disabled, or tagged
/// with another language) has no effect on the answer: removing it from the
/// list gives the same result for every headword.
pub proof fn lemma_unselected_dictionary_ignored(
    ds: Seq<Dictionary>,
    k: int,
    w: Seq<char>,
    lang: Option<Seq<char>>,
)
    requires
        0 <= k < ds.len(),
        !file_selected(ds[k].file, target_language(lang)),
    ensures
        resolve(ds, w, lang) == resolve(ds.remove(k), w, lang),
{
    let t = target_language(lang);
    assert forall|v: Seq<char>| #[trigger] gathered(ds, v, t) == gathered(ds.remove(k), v, t) by {
        lemma_gathered_without(ds, k, v, t);
    }
    lemma_resolve_at_same(ds, ds.remove(k), w, 0, t);
}

pub open spec fn string_views(v: Seq<String>) -> Seq<Seq<char>> {
    v.map_values(|s: String| s@)
}

fn push_defs(out: &mut Vec<String>, hits: Vec<(i64, String)>)
    ensures
        string_views(final(out)@) == string_views(old(out)@) + hit_defs(
            hits@.map_values(|h: (i64, String)| (h.0 as int, h.1@)),
        ),
{
    let ghost start = string_views(out@);
    let ghost hv = hits@.map_values(|h: (i64, String)| (h.0 as int, h.1@));
    let mut i: usize = 0;
    while i < hits.len()
        invariant
            i <= hits@.len(),
            hv == hits@.map_values(|h: (i64, String)| (h.0 as int, h.1@)),
            string_views(out@) == start + hit_defs(hv.take(i as int)),
        decreases hits@.len() - i,
    {
        let d = hits[i].1.clone();
        assert(hit_defs(hv.take(i + 1)) =~= hit_defs(hv.take(i as int)).push(d@));
        let ghost before = out@;
        out.push(d);
        assert(string_views(out@) =~= string_views(before).push(d@));
        assert(string_views(out@) =~= start + hit_defs(hv.take(i + 1)));
        i = i + 1;
    }
    assert(hv.take(i as int) =~= hv);
}

/// What one dictionary yields for `w`.
fn dictionary_hits(d: &Dictionary, w: &String, out: &mut Vec<String>)
    ensures
        string_views(final(out)@) == string_views(old(out)@) + dictionary_defs(*d, w@),
{
    match &d.store {
        None => {
            assert(string_views(out@) =~= string_views(out@) + seq![]);
        },
        Some(s) => {
            let exact = s.lookup_exact(w);
            if exact.len() > 0 {
                push_defs(out, exact);
            } else {
                let pat = s.lookup_pattern(w);
                push_defs(out, pat);
            }
        },
    }
}

/// What all dictionaries selected for `target` yield for `w`.
fn gather(ds: &Vec<Dictionary>, w: &String, target: &String) -> (r: Vec<String>)
    ensures
        string_views(r@) == gathered(ds@, w@, target@),
{
    let mut r: Vec<String> = Vec::new();
    let mut i: usize = 0;
    while i < ds.len()
        invariant
            i <= ds@.len(),
            string_views(r@) == gathered(ds@.take(i as int), w@, target@),
        decreases ds@.len() - i,
    {
        assert(ds@.take(i + 1).drop_last() =~= ds@.take(i as int));
        if selects(&ds[i].file, target) {
            dictionary_hits(&ds[i], w, &mut r);
        }
        i = i + 1;
    }
    assert(ds@.take(i as int) =~= ds@);
    r
}

/// Splits definitions into content and redirect targets.
fn classify(hs: &Vec<String>) -> (r: (Vec<String>, Vec<String>))
    ensures
        string_views(r.0@) == direct_defs(string_views(hs@)),
        string_views(r.1@) == redirect_targets(string_views(hs@)),
{
    let mut direct: Vec<String> = Vec::new();
    let mut targets: Vec<String> = Vec::new();
    let mut i: usize = 0;
    while i < hs.len()
        invariant
            i <= hs@.len(),
            string_views(direct@) == direct_defs(string_views(hs@).take(i as int)),
            string_views(targets@) == redirect_targets(string_views(hs@).take(i as int)),
        decreases hs@.len() - i,
    {
        assert(string_views(hs@).take(i + 1).drop_last() =~= string_views(hs@).take(i as int));
        assert(string_views(hs@).take(i + 1).last() == hs@[i as int]@);
        if is_redirect_def(&hs[i]) {
            targets.push(redirect_target_of(&hs[i]));
        } else {
            direct.push(hs[i].clone());
        }
        assert(string_views(direct@) =~= direct_defs(string_views(hs@).take(i + 1)));
        assert(string_views(targets@) =~= redirect_targets(string_views(hs@).take(i + 1)));
        i = i + 1;
    }
    assert(string_views(hs@).take(i as int) =~= string_views(hs@));
    (direct, targets)
}

/// The parts joined with the separator.
pub fn join_parts(parts: &Vec<String>) -> (r: String)
    ensures
        r@ == join(string_views(parts@)),
{
    proof {
        reveal_strlit("\n\n=== Next Entry ===\n\n");
    }
    let mut r = String::new();
    let mut i: usize = 0;
    while i < parts.len()
        invariant
            i <= parts@.len(),
            r@ == join(string_views(parts@).take(i as int)),
        decreases parts@.len() - i,
    {
        assert(string_views(parts@).take(i + 1).drop_last() =~= string_views(parts@).take(i as int));
        if i > 0 {
            r.append("\n\n=== Next Entry ===\n\n");
        } else {
            assert(r@ =~= seq![]);
        }
        r.append(parts[i].as_str());
        assert(r@ =~= join(string_views(parts@).take(i + 1)));
        i = i + 1;
    }
    assert(string_views(parts@).take(i as int) =~= string_views(parts@));
    r
}

/// Resolves `word` at redirect depth `redirect_count`.
fn query_with_redirect_resolution(
    ds: &Vec<Dictionary>,
    word: &String,
    redirect_count: u8,
    target: &String,
) -> (r: String)
    requires
        redirect_count <= 6,
    ensures
        r@ == resolve_at(ds@, word@, redirect_count as nat, target@),
    decreases 6 - redirect_count,
{
    proof {
        reveal_strlit("Error: Too many redirects");
        reveal_strlit("not found");
    }
    if redirect_count > 5 {
        return String::from_str("Error: Too many redirects");
    }
    let hs = gather(ds, word, target);
    let (mut all, targets) = classify(&hs);
    let ghost direct = string_views(all@);
    let ghost tv = string_views(targets@);
    let not_found = String::from_str("not found");
    let mut i: usize = 0;
    while i < targets.len()
        invariant
            redirect_count <= 5,
            i <= targets@.len(),
            tv == string_views(targets@),
            not_found@ == not_found_text(),
            string_views(all@) == direct + resolve_all(
                ds@,
                tv.take(i as int),
                (redirect_count + 1) as nat,
                target@,
            ),
        decreases targets@.len() - i,
    {
        assert(tv.take(i + 1).drop_last() =~= tv.take(i as int));
        assert(tv.take(i + 1).last() == targets@[i as int]@);
        let resolved = query_with_redirect_resolution(ds, &targets[i], redirect_count + 1, target);
        let ghost prev = resolve_all(ds@, tv.take(i as int), (redirect_count + 1) as nat, target@);
        assert(resolve_all(ds@, tv.take(i + 1), (redirect_count + 1) as nat, target@) == (if resolved@
            == not_found_text() {
            prev
        } else {
            prev.push(resolved@)
        }));
        let ghost before = all@;
        if !(resolved == not_found) {
            all.push(resolved);
            assert(string_views(all@) =~= string_views(before).push(resolved@));
        }
        assert(string_views(all@) =~= direct + resolve_all(
            ds@,
            tv.take(i + 1),
            (redirect_count + 1) as nat,
            target@,
        ));
        i = i + 1;
    }
    assert(tv.take(i as int) =~= tv);
    if all.len() > 0 {
        join_parts(&all)
    } else {
        not_found
    }
}

/// Answers a query for `word` in `lang` (the default language when `None`)
/// over the dictionaries selected for that language.
pub fn query(ds: &Vec<Dictionary>, word: String, lang: Option<String>) -> (r: String)
    ensures
        r@ == resolve(
            ds@,
            word@,
            match lang {
                Some(l) => Some(l@),
                None => None,
            },
        ),
{
    let target = match lang {
        Some(l) => l,
        None => default_lang(),
    };
    query_with_redirect_resolution(ds, &word, 0, &target)
}

} // verus!
