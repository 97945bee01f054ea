//! The tree editor: one depth-first pass over a category that shows every
//! leaf to a visitor and rebuilds the category from the visitor's answers.

use vstd::prelude::*;
use vstd::string::*;
use crate::sound::{well_keyed, within};
use crate::value::{
    doc_view,
    lemma_object_view,
    path_view,
    Entry,
    Json,
    Kind,
    Members,
    Path,
    Value,
};

verus! {

/// Whether a leaf of this kind can be edited: strings, booleans and numbers
/// can; null and arrays pass through as they are.
pub open spec fn editable(kind: Kind) -> bool {
    kind == Kind::String || kind == Kind::Boolean || kind == Kind::Number
}

/// The value that stands in the rebuilt document for `leaf` when the visitor
/// answered `answer`: the answer where the leaf can be edited and the answer
/// has the leaf's variant, the leaf itself otherwise.
pub open spec fn accepted(leaf: Json, answer: Json) -> Json {
    if editable(leaf.kind()) && answer.kind() == leaf.kind() {
        answer
    } else {
        leaf
    }
}

/// The number of leaf rows among the first `n` members: a nested object
/// counts by the rows inside it, every other member is one row.
pub open spec fn leaf_count(members: Members, n: nat) -> nat
    decreases members, n,
{
    if n == 0 || n > members.len() {
        0
    } else {
        leaf_count(members, (n - 1) as nat) + match members[n - 1].1 {
            Json::Object(nested) => leaf_count(nested, nested.len()),
            _ => 1,
        }
    }
}

/// The stripe flag after `rows` rows, each of which flips it.
pub open spec fn toggled(stripe: bool, rows: nat) -> bool {
    if rows % 2 == 0 {
        stripe
    } else {
        !stripe
    }
}

/// Whether `answer` is something that the visitor may return for the leaf
/// at `path` and `key`, shown with this stripe.
pub open spec fn answers<F>(
    visitor: F,
    path: Path,
    key: Seq<char>,
    leaf: Json,
    stripe: bool,
    answer: Json,
) -> bool where F: Fn(&Vec<String>, &str, &Value, bool) -> Value {
    exists|p: Vec<String>, k: &str, v: Value, r: Value|
        #[trigger] call_ensures(visitor, (&p, k, &v, stripe), r) && path_view(p@) == path && k@
            == key && v@ == leaf && r@ == answer
}

/// Whether `after` is what the pass builds for the leaf at `path` and `key`,
/// with `stripe` the flag before its row: an answer of the visitor, who is
/// shown the flipped flag, accepted or refused by its variant.
pub open spec fn rebuilt_leaf<F>(
    visitor: F,
    path: Path,
    stripe: bool,
    key: Seq<char>,
    leaf: Json,
    after: Json,
) -> bool where F: Fn(&Vec<String>, &str, &Value, bool) -> Value {
    exists|answer: Json|
        #[trigger] answers(visitor, path, key, leaf, toggled(stripe, 1), answer) && after
            == accepted(leaf, answer)
}

/// Whether `after` is what the pass builds for the member `before`, with
/// `stripe` the flag before its first row: the same key; for a nested object
/// the pass over its members, one key further down the path; for a leaf an
/// answer of the visitor, who is shown the flipped flag, accepted or refused
/// by its variant.
pub open spec fn rebuilt_member<F>(
    visitor: F,
    path: Path,
    stripe: bool,
    before: (Seq<char>, Json),
    after: (Seq<char>, Json),
) -> bool where F: Fn(&Vec<String>, &str, &Value, bool) -> Value
    decreases before, 0nat,
{
    &&& after.0 == before.0
    &&& match before.1 {
        Json::Object(nested) => {
            &&& after.1 matches Json::Object(rebuilt)
            &&& rebuilt.len() == nested.len()
            &&& reconciled(visitor, path.push(before.0), stripe, nested, rebuilt, nested.len())
        },
        _ => rebuilt_leaf(visitor, path, stripe, before.0, before.1, after.1),
    }
}

/// Whether the first `n` members of `after` are what one pass over the first
/// `n` members of `before` builds, member by member in their order. `stripe`
/// is the flag before the first row.
pub open spec fn reconciled<F>(
    visitor: F,
    path: Path,
    stripe: bool,
    before: Members,
    after: Members,
    n: nat,
) -> bool where F: Fn(&Vec<String>, &str, &Value, bool) -> Value
    decreases before, n,
{
    if n == 0 {
        true
    } else if n > before.len() || n > after.len() {
        false
    } else {
        &&& reconciled(visitor, path, stripe, before, after, (n - 1) as nat)
        &&& rebuilt_member(
            visitor,
            path,
            toggled(stripe, leaf_count(before, (n - 1) as nat)),
            before[n - 1],
            after[n - 1],
        )
    }
}

/// The path one key further down.
fn extended(path: &Vec<String>, key: &str) -> (longer: Vec<String>)
    ensures
        path_view(longer@) == path_view(path@).push(key@),
{
    let mut longer: Vec<String> = Vec::new();
    let mut i: usize = 0;
    while i < path.len()
        invariant
            i <= path@.len(),
            longer@.len() == i,
            forall|j: int| 0 <= j < i ==> (#[trigger] longer@[j])@ == path@[j]@,
        decreases path@.len() - i,
    {
        longer.push(path[i].clone());
        i += 1;
    }
    longer.push(String::from_str(key));
    assert(path_view(longer@) =~= path_view(path@).push(key@));
    longer
}

/// The value that stands for `leaf` after the visitor answered `answer`.
pub fn accept(leaf: &Value, answer: Value) -> (kept: Value)
    ensures
        kept@ == accepted(leaf@, answer@),
{
    let kind = leaf.kind();
    let can_edit = match kind {
        Kind::String => true,
        Kind::Boolean => true,
        Kind::Number => true,
        _ => false,
    };
    if can_edit && answer.kind() == kind {
        answer
    } else {
        leaf.deep_copy()
    }
}

/// One pass over a category: rebuilds `subdocument` from the answers of
/// `leaf_visitor`.
///
/// The members are visited in their stored order, depth first. A nested
/// object is rebuilt by the same pass, with its key added to the path; the
/// visitor is not called for the object itself. Every other member is a leaf
/// row: the stripe flag flips, and the visitor is called with the path, the
/// key, the value and the flag. Its answer replaces the value if the leaf is
/// a string, a boolean or a number and the answer has the same variant; an
/// answer of another variant is refused and the value stays. So the rebuilt
/// document has the keys of the old one in their order at every depth, and
/// no value has changed its variant.
pub fn reconcile<F>(
    subdocument: &Vec<Entry>,
    path_prefix: &Vec<String>,
    stripe: &mut bool,
    leaf_visitor: &F,
) -> (rebuilt: Vec<Entry>) where F: Fn(&Vec<String>, &str, &Value, bool) -> Value
    requires
        forall|p: Vec<String>, k: &str, v: Value, s: bool|
            call_requires(*leaf_visitor, (&p, k, &v, s)),
    ensures
        rebuilt@.len() == subdocument@.len(),
        reconciled(
            *leaf_visitor,
            path_view(path_prefix@),
            *old(stripe),
            doc_view(subdocument@),
            doc_view(rebuilt@),
            subdocument@.len() as nat,
        ),
        same_shape(Json::Object(doc_view(subdocument@)), Json::Object(doc_view(rebuilt@))),
        *final(stripe) == toggled(
            *old(stripe),
            leaf_count(doc_view(subdocument@), subdocument@.len() as nat),
        ),
    decreases subdocument,
{
    let ghost before = doc_view(subdocument@);
    let ghost path = path_view(path_prefix@);
    let ghost first = *stripe;
    let mut rebuilt: Vec<Entry> = Vec::new();
    let mut i: usize = 0;
    while i < subdocument.len()
        invariant
            i <= subdocument@.len(),
            rebuilt@.len() == i,
            before == doc_view(subdocument@),
            before.len() == subdocument@.len(),
            path == path_view(path_prefix@),
            forall|p: Vec<String>, k: &str, v: Value, s: bool|
                call_requires(*leaf_visitor, (&p, k, &v, s)),
            reconciled(*leaf_visitor, path, first, before, doc_view(rebuilt@), i as nat),
            *stripe == toggled(first, leaf_count(before, i as nat)),
        decreases subdocument@.len() - i,
    {
        let entry = &subdocument[i];
        let ghost so_far = doc_view(rebuilt@);
        let ghost flag = *stripe;
        let value = match &entry.value {
            Value::Object(nested) => {
                let deeper = extended(path_prefix, entry.key.as_str());
                let inner = reconcile(nested, &deeper, stripe, leaf_visitor);
                proof {
                    lemma_object_view(*nested);
                    lemma_object_view(inner);
                }
                Value::Object(inner)
            },
            leaf => {
                *stripe = !*stripe;
                let answer = leaf_visitor(path_prefix, entry.key.as_str(), leaf, *stripe);
                let kept = accept(leaf, answer);
                proof {
                    assert(answers(
                        *leaf_visitor,
                        path,
                        entry.key@,
                        leaf@,
                        toggled(flag, 1),
                        answer@,
                    ));
                    assert(rebuilt_leaf(*leaf_visitor, path, flag, entry.key@, leaf@, kept@));
                }
                kept
            },
        };
        rebuilt.push(Entry { key: entry.key.clone(), value });
        proof {
            let now = doc_view(rebuilt@);
            assert(before[i as int] == (entry.key@, entry.value@));
            assert(now[i as int] == (entry.key@, value@));
            assert(forall|j: int| 0 <= j < i ==> now[j] == so_far[j]);
            lemma_reconciled_prefix(*leaf_visitor, path, first, before, so_far, now, i as nat);
            assert(rebuilt_member(*leaf_visitor, path, flag, before[i as int], now[i as int]));
        }
        i += 1;
    }
    proof {
        lemma_pass_keeps_shape(
            *leaf_visitor,
            path,
            first,
            before,
            doc_view(rebuilt@),
            before.len(),
        );
    }
    rebuilt
}

/// The relation looks at the first `n` members only.
pub proof fn lemma_reconciled_prefix<F>(
    visitor: F,
    path: Path,
    stripe: bool,
    before: Members,
    after: Members,
    longer: Members,
    n: nat,
) where F: Fn(&Vec<String>, &str, &Value, bool) -> Value
    requires
        reconciled(visitor, path, stripe, before, after, n),
        n <= after.len() <= longer.len(),
        forall|i: int| 0 <= i < n ==> longer[i] == after[i],
    ensures
        reconciled(visitor, path, stripe, before, longer, n),
    decreases n,
{
    if n > 0 {
        lemma_reconciled_prefix(visitor, path, stripe, before, after, longer, (n - 1) as nat);
    }
}

/// Whether `after` has the shape of `before`: an object has the same keys in
/// the same order, with members of the same shape; a string, a boolean or a
/// number has kept its variant; null and arrays are unchanged.
pub open spec fn same_shape(before: Json, after: Json) -> bool
    decreases before,
{
    match before {
        Json::Object(members) => {
            &&& after matches Json::Object(rebuilt)
            &&& rebuilt.len() == members.len()
            &&& forall|i: int|
                0 <= i < members.len() ==> (#[trigger] rebuilt[i]).0 == members[i].0 && same_shape(
                    members[i].1,
                    rebuilt[i].1,
                )
        },
        Json::Array(_) => after == before,
        Json::Null => after == before,
        _ => after.kind() == before.kind(),
    }
}

/// A value of the shape of another is nested no deeper than the other.
pub proof fn lemma_same_shape_within(before: Json, after: Json, depth: nat)
    requires
        same_shape(before, after),
        within(before, depth),
    ensures
        within(after, depth),
    decreases depth,
{
    match before {
        Json::Object(members) => {
            let rebuilt = after->Object_0;
            assert forall|i: int| 0 <= i < rebuilt.len() implies within(
                (#[trigger] rebuilt[i]).1,
                (depth - 1) as nat,
            ) by {
                assert(within(members[i].1, (depth - 1) as nat));
                lemma_same_shape_within(members[i].1, rebuilt[i].1, (depth - 1) as nat);
            }
        },
        _ => {},
    }
}

/// A value of the shape of another has distinct keys in its objects where the
/// other has.
pub proof fn lemma_same_shape_well_keyed(before: Json, after: Json)
    requires
        same_shape(before, after),
        well_keyed(before),
    ensures
        well_keyed(after),
    decreases before,
{
    match before {
        Json::Object(members) => {
            let rebuilt = after->Object_0;
            assert forall|i: int| 0 <= i < rebuilt.len() implies well_keyed(
                (#[trigger] rebuilt[i]).1,
            ) by {
                assert(well_keyed(members[i].1));
                lemma_same_shape_well_keyed(members[i].1, rebuilt[i].1);
            }
            assert forall|i: int, j: int| 0 <= i < j < rebuilt.len() implies (
            #[trigger] rebuilt[i]).0 != (#[trigger] rebuilt[j]).0 by {
                assert(rebuilt[i].0 == members[i].0);
                assert(rebuilt[j].0 == members[j].0);
            }
        },
        _ => {},
    }
}

/// The member that the pass builds from `before` when the visitor's answer is
/// the function `answer` of path, key and leaf.
pub open spec fn mapped_member(
    before: (Seq<char>, Json),
    path: Path,
    answer: spec_fn(Path, Seq<char>, Json) -> Json,
) -> (Seq<char>, Json)
    decreases before,
{
    (
        before.0,
        match before.1 {
            Json::Object(nested) => Json::Object(
                Seq::new(
                    nested.len(),
                    |i: int|
                        if 0 <= i < nested.len() {
                            mapped_member(nested[i], path.push(before.0), answer)
                        } else {
                            nested[i]
                        },
                ),
            ),
            _ => accepted(before.1, answer(path, before.0, before.1)),
        },
    )
}

/// Whether the visitor's answers are the function `answer` of path, key and
/// leaf, whatever the stripe.
pub open spec fn answers_by<F>(visitor: F, answer: spec_fn(Path, Seq<char>, Json) -> Json)
    -> bool where F: Fn(&Vec<String>, &str, &Value, bool) -> Value {
    forall|p: Vec<String>, k: &str, v: Value, s: bool, r: Value| #[trigger]
        call_ensures(visitor, (&p, k, &v, s), r) ==> r@ == answer(path_view(p@), k@, v@)
}

/// The answer that hands every leaf back.
pub open spec fn unchanged() -> spec_fn(Path, Seq<char>, Json) -> Json {
    |path: Path, key: Seq<char>, leaf: Json| leaf
}

/// The answer that puts `replacement` at the leaf with this path and key and
/// hands every other leaf back.
pub open spec fn replacing(target: Path, target_key: Seq<char>, replacement: Json) -> spec_fn(
    Path,
    Seq<char>,
    Json,
) -> Json {
    |path: Path, key: Seq<char>, leaf: Json|
        if path == target && key == target_key {
            replacement
        } else {
            leaf
        }
}

/// Whatever the visitor answers, a rebuilt member has the key and the shape
/// of the member it was built from.
pub proof fn lemma_member_keeps_shape<F>(
    visitor: F,
    path: Path,
    stripe: bool,
    before: (Seq<char>, Json),
    after: (Seq<char>, Json),
) where F: Fn(&Vec<String>, &str, &Value, bool) -> Value
    requires
        rebuilt_member(visitor, path, stripe, before, after),
    ensures
        after.0 == before.0,
        same_shape(before.1, after.1),
    decreases before, 0nat,
{
    match before.1 {
        Json::Object(nested) => {
            let rebuilt = after.1->Object_0;
            lemma_pass_keeps_shape(
                visitor,
                path.push(before.0),
                stripe,
                nested,
                rebuilt,
                nested.len(),
            );
        },
        _ => {},
    }
}

/// Whatever the visitor answers, the pass keeps every key in its place and
/// every value in its shape, at every depth.
pub proof fn lemma_pass_keeps_shape<F>(
    visitor: F,
    path: Path,
    stripe: bool,
    before: Members,
    after: Members,
    n: nat,
) where F: Fn(&Vec<String>, &str, &Value, bool) -> Value
    requires
        reconciled(visitor, path, stripe, before, after, n),
    ensures
        forall|i: int|
            0 <= i < n ==> (#[trigger] after[i]).0 == before[i].0 && same_shape(
                before[i].1,
                after[i].1,
            ),
    decreases before, n,
{
    if n > 0 {
        lemma_pass_keeps_shape(visitor, path, stripe, before, after, (n - 1) as nat);
        lemma_member_keeps_shape(
            visitor,
            path,
            toggled(stripe, leaf_count(before, (n - 1) as nat)),
            before[n - 1],
            after[n - 1],
        );
    }
}

/// With a visitor whose answers are a function of path, key and leaf, a
/// rebuilt member is that function applied to every leaf of the member.
pub proof fn lemma_member_by_function<F>(
    visitor: F,
    answer: spec_fn(Path, Seq<char>, Json) -> Json,
    path: Path,
    stripe: bool,
    before: (Seq<char>, Json),
    after: (Seq<char>, Json),
) where F: Fn(&Vec<String>, &str, &Value, bool) -> Value
    requires
        rebuilt_member(visitor, path, stripe, before, after),
        answers_by(visitor, answer),
    ensures
        after == mapped_member(before, path, answer),
    decreases before, 0nat,
{
    match before.1 {
        Json::Object(nested) => {
            let rebuilt = after.1->Object_0;
            lemma_pass_by_function(
                visitor,
                answer,
                path.push(before.0),
                stripe,
                nested,
                rebuilt,
                nested.len(),
            );
            assert(rebuilt =~= mapped_member(before, path, answer).1->Object_0);
        },
        _ => {
            let given = choose|given: Json|
                #[trigger] answers(visitor, path, before.0, before.1, toggled(stripe, 1), given)
                    && after.1 == accepted(before.1, given);
            assert(given == answer(path, before.0, before.1));
        },
    }
}

/// With a visitor whose answers are a function of path, key and leaf, the
/// pass is that function applied to every leaf of the document.
pub proof fn lemma_pass_by_function<F>(
    visitor: F,
    answer: spec_fn(Path, Seq<char>, Json) -> Json,
    path: Path,
    stripe: bool,
    before: Members,
    after: Members,
    n: nat,
) where F: Fn(&Vec<String>, &str, &Value, bool) -> Value
    requires
        reconciled(visitor, path, stripe, before, after, n),
        answers_by(visitor, answer),
    ensures
        forall|i: int| 0 <= i < n ==> #[trigger] after[i] == mapped_member(before[i], path, answer),
    decreases before, n,
{
    if n > 0 {
        lemma_pass_by_function(visitor, answer, path, stripe, before, after, (n - 1) as nat);
        lemma_member_by_function(
            visitor,
            answer,
            path,
            toggled(stripe, leaf_count(before, (n - 1) as nat)),
            before[n - 1],
            after[n - 1],
        );
    }
}

/// Handing every leaf back rebuilds the member as it was.
pub proof fn lemma_mapped_unchanged(before: (Seq<char>, Json), path: Path)
    ensures
        mapped_member(before, path, unchanged()) == before,
    decreases before,
{
    match before.1 {
        Json::Object(nested) => {
            let rebuilt = mapped_member(before, path, unchanged()).1->Object_0;
            assert forall|i: int| 0 <= i < nested.len() implies rebuilt[i] == nested[i] by {
                lemma_mapped_unchanged(nested[i], path.push(before.0));
            }
            assert(rebuilt =~= nested);
        },
        _ => {},
    }
}

/// A pass whose visitor hands every leaf back returns the document it was
/// given, with every key and value where it was, at every depth.
pub proof fn lemma_identity_pass<F>(
    visitor: F,
    path: Path,
    stripe: bool,
    before: Members,
    after: Members,
) where F: Fn(&Vec<String>, &str, &Value, bool) -> Value
    requires
        after.len() == before.len(),
        reconciled(visitor, path, stripe, before, after, before.len()),
        answers_by(visitor, unchanged()),
    ensures
        after == before,
{
    lemma_pass_by_function(visitor, unchanged(), path, stripe, before, after, before.len());
    assert forall|i: int| 0 <= i < before.len() implies after[i] == before[i] by {
        lemma_mapped_unchanged(before[i], path);
    }
    assert(after =~= before);
}

/// What `replacing` makes of one leaf: the replacement at the leaf with the
/// target's path and key, if the leaf can be edited and the replacement has
/// its variant; the leaf itself everywhere else.
pub proof fn lemma_replacing_leaf(
    leaf: (Seq<char>, Json),
    path: Path,
    target: Path,
    target_key: Seq<char>,
    replacement: Json,
)
    requires
        !(leaf.1 is Object),
    ensures
        mapped_member(leaf, path, replacing(target, target_key, replacement)) == (
            leaf.0,
            if path == target && leaf.0 == target_key && editable(leaf.1.kind())
                && replacement.kind() == leaf.1.kind() {
                replacement
            } else {
                leaf.1
            },
        ),
{
}

/// A pass whose visitor answers `replacement` at the leaf with path `target`
/// and key `target_key`, and hands every other leaf back, returns the
/// document with the replacement at that leaf, if it has the leaf's variant
/// and the leaf can be edited, and with every other leaf unchanged.
pub proof fn lemma_replacing_pass<F>(
    visitor: F,
    path: Path,
    stripe: bool,
    before: Members,
    after: Members,
    target: Path,
    target_key: Seq<char>,
    replacement: Json,
) where F: Fn(&Vec<String>, &str, &Value, bool) -> Value
    requires
        after.len() == before.len(),
        reconciled(visitor, path, stripe, before, after, before.len()),
        answers_by(visitor, replacing(target, target_key, replacement)),
    ensures
        forall|i: int|
            0 <= i < before.len() ==> #[trigger] after[i] == mapped_member(
                before[i],
                path,
                replacing(target, target_key, replacement),
            ),
{
    lemma_pass_by_function(
        visitor,
        replacing(target, target_key, replacement),
        path,
        stripe,
        before,
        after,
        before.len(),
    );
}

} // verus!
