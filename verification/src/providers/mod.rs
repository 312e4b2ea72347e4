//! Speech-to-text providers, resolved by id, and the catalog of the models
//! that a provider lists.

pub mod groq;
pub mod openai;
pub mod openai_compatible;

use vstd::prelude::*;

use crate::providers::openai_compatible::OpenAiCompatibleProvider;
use crate::text::{lemma_lex_antisym, lemma_lex_total, lemma_lex_trans, lex_le, lex_lt, lower_seq};

verus! {

/// Category of a model listed by a provider.
#[derive(Debug, Clone, Copy, PartialEq, Eq, Structural)]
pub enum ModelKind {
    Stt,
    Chat,
}

/// Known provider ids, in the order the settings show them.
pub const KNOWN: [&'static str; 2] = [openai::ID, groq::ID];

/// The provider for a configured id; an unknown id falls back to OpenAI (the
/// cycle is never left without a provider).
pub fn resolve(provider_id: &str, api_key: String) -> (p: OpenAiCompatibleProvider)
    ensures
        if provider_id@ == groq::ID@ {
            p.id@ == groq::ID@ && p.base_url@ == groq::BASE_URL@
        } else {
            p.id@ == openai::ID@ && p.base_url@ == openai::BASE_URL@
        },
        p.api_key@ == api_key@,
{
    if crate::text::str_eq(provider_id, groq::ID) {
        groq::provider(api_key)
    } else {
        openai::provider(api_key)
    }
}

/// Default model of a provider (for the reset when the provider changes).
pub fn default_model(provider_id: &str) -> (m: &'static str)
    ensures
        m@ == (if provider_id@ == groq::ID@ {
            groq::DEFAULT_MODEL@
        } else {
            openai::DEFAULT_MODEL@
        }),
{
    if crate::text::str_eq(provider_id, groq::ID) {
        groq::DEFAULT_MODEL
    } else {
        openai::DEFAULT_MODEL
    }
}

} // verus!

verus! {

/// Classification rule of the provider `provider_id` (Groq for its id,
/// OpenAI for any other).
pub open spec fn spec_classify_for(provider_id: Seq<char>, id: Seq<char>) -> Option<ModelKind> {
    if provider_id == groq::ID@ {
        groq::spec_classify_model(id)
    } else {
        openai::spec_classify_model(id)
    }
}

/// Classifies a model id with the rule of the provider `provider_id`.
pub fn classify_for(provider_id: &str, id: &str) -> (kind: Option<ModelKind>)
    ensures
        kind == spec_classify_for(provider_id@, id@),
{
    if crate::text::str_eq(provider_id, groq::ID) {
        groq::classify_model(id)
    } else {
        openai::classify_model(id)
    }
}

/// Models of a provider, by category, ready for the settings screen: `stt`
/// feeds the model selector, `chat` the language-model pass.
#[derive(Debug)]
pub struct ModelCatalog {
    pub stt: Vec<String>,
    pub chat: Vec<String>,
}

impl Default for ModelCatalog {
    fn default() -> (c: Self)
        ensures
            c.stt@.len() == 0,
            c.chat@.len() == 0,
    {
        ModelCatalog { stt: Vec::new(), chat: Vec::new() }
    }
}

/// The chars of each string.
pub open spec fn views(s: Seq<String>) -> Seq<Seq<char>> {
    s.map_values(|x: String| x@)
}

/// Position of the first occurrence of `x` in `s` (meaningful when `s`
/// contains `x`).
pub open spec fn first_pos(s: Seq<Seq<char>>, x: Seq<char>) -> int
    decreases s.len(),
{
    if s.len() == 0 {
        0
    } else if s.drop_last().contains(x) {
        first_pos(s.drop_last(), x)
    } else {
        s.len() - 1
    }
}

/// Catalog order: by case-insensitive code-point order of the ids, and for
/// ids equal up to case, by first appearance in the provider's listing.
pub open spec fn catalog_before(ids: Seq<Seq<char>>, x: Seq<char>, y: Seq<char>) -> bool {
    ||| lex_lt(lower_seq(x), lower_seq(y))
    ||| (lower_seq(x) == lower_seq(y) && first_pos(ids, x) < first_pos(ids, y))
}

/// No id appears twice.
pub open spec fn no_dups(s: Seq<Seq<char>>) -> bool {
    forall|p: int, q: int| 0 <= p < q < s.len() ==> s[p] != s[q]
}

/// From position `from` on, the ids are in catalog order.
pub open spec fn ordered_from(ids: Seq<Seq<char>>, s: Seq<Seq<char>>, from: int) -> bool {
    forall|p: int, q: int| from <= p < q < s.len() ==> catalog_before(ids, s[p], s[q])
}

/// `x` is listed by the provider and classified as `kind`.
pub open spec fn listed_as(ids: Seq<Seq<char>>, provider_id: Seq<char>, kind: ModelKind, x: Seq<char>) -> bool {
    ids.contains(x) && spec_classify_for(provider_id, x) == Some(kind)
}

/// `out` is the catalog list of category `kind`: each id so classified,
/// once, in catalog order — except that `first`, when listed, comes first.
pub open spec fn is_catalog_list(
    ids: Seq<Seq<char>>,
    provider_id: Seq<char>,
    kind: ModelKind,
    out: Seq<Seq<char>>,
    first: Option<Seq<char>>,
) -> bool {
    &&& no_dups(out)
    &&& forall|x: Seq<char>| #[trigger] out.contains(x) <==> listed_as(ids, provider_id, kind, x)
    &&& match first {
        Some(d) => if out.contains(d) {
            out[0] == d && ordered_from(ids, out, 1)
        } else {
            ordered_from(ids, out, 0)
        },
        None => ordered_from(ids, out, 0),
    }
}

proof fn lemma_first_pos(s: Seq<Seq<char>>, x: Seq<char>)
    requires
        s.contains(x),
    ensures
        0 <= first_pos(s, x) < s.len(),
        s[first_pos(s, x)] == x,
        forall|k: int| 0 <= k < first_pos(s, x) ==> s[k] != x,
    decreases s.len(),
{
    if s.drop_last().contains(x) {
        lemma_first_pos(s.drop_last(), x);
        assert forall|k: int| 0 <= k < first_pos(s, x) implies s[k] != x by {
            assert(s[k] == s.drop_last()[k]);
        }
    } else {
        let j = choose|j: int| 0 <= j < s.len() && s[j] == x;
        if j < s.len() - 1 {
            assert(s.drop_last()[j] == x);
        }
        assert forall|k: int| 0 <= k < s.len() - 1 implies s[k] != x by {
            if s[k] == x {
                assert(s.drop_last()[k] == x);
            }
        }
    }
}

proof fn lemma_first_pos_at(s: Seq<Seq<char>>, x: Seq<char>, j: int)
    requires
        0 <= j < s.len(),
        s[j] == x,
        forall|k: int| 0 <= k < j ==> s[k] != x,
    ensures
        first_pos(s, x) == j,
{
    lemma_first_pos(s, x);
}

proof fn lemma_first_pos_within(s: Seq<Seq<char>>, x: Seq<char>, i: int)
    requires
        0 <= i <= s.len(),
        s.take(i).contains(x),
    ensures
        first_pos(s, x) < i,
{
    lemma_first_pos(s, x);
    let j = choose|j: int| 0 <= j < i && s.take(i)[j] == x;
    assert(s[j] == x);
}

/// Inserting `x` at `p` keeps the catalog order, when everything before `p`
/// has a key no later than `x`'s, the element at `p` has a later key, and
/// `x` appears in the listing after every element already present.
proof fn lemma_insert_ordered(ids: Seq<Seq<char>>, s: Seq<Seq<char>>, p: int, x: Seq<char>)
    requires
        0 <= p <= s.len(),
        ordered_from(ids, s, 0),
        forall|q: int| 0 <= q < p ==> lex_le(#[trigger] lower_seq(s[q]), lower_seq(x)),
        p < s.len() ==> lex_lt(lower_seq(x), lower_seq(s[p])),
        forall|q: int| 0 <= q < s.len() ==> first_pos(ids, #[trigger] s[q]) < first_pos(ids, x),
    ensures
        ordered_from(ids, s.insert(p, x), 0),
{
    let t = s.insert(p, x);
    assert forall|a: int, b: int| 0 <= a < b < t.len() implies catalog_before(ids, t[a], t[b]) by {
        if a < p && b < p {
            assert(t[a] == s[a] && t[b] == s[b]);
        } else if a < p && b == p {
            assert(t[a] == s[a] && t[b] == x);
            assert(lex_le(lower_seq(s[a]), lower_seq(x)));
            assert(first_pos(ids, s[a]) < first_pos(ids, x));
        } else if a < p && b > p {
            assert(t[a] == s[a] && t[b] == s[b - 1]);
            assert(catalog_before(ids, s[a], s[b - 1]));
        } else if a == p {
            assert(t[a] == x && t[b] == s[b - 1]);
            let lx = lower_seq(x);
            let lp = lower_seq(s[p]);
            let lq = lower_seq(s[b - 1]);
            if b - 1 > p {
                assert(catalog_before(ids, s[p], s[b - 1]));
                assert(lex_le(lp, lq)) by {
                    if lp == lq {
                        lemma_lex_total(lp, lq);
                    }
                }
                lemma_lex_trans(lx, lp, lq);
                if lx == lq {
                    lemma_lex_antisym(lp, lx);
                }
            }
        } else {
            assert(t[a] == s[a - 1] && t[b] == s[b - 1]);
            assert(catalog_before(ids, s[a - 1], s[b - 1]));
        }
    }
}

/// Removing an element keeps the catalog order of the rest.
proof fn lemma_remove_ordered(ids: Seq<Seq<char>>, s: Seq<Seq<char>>, r: int)
    requires
        0 <= r < s.len(),
        ordered_from(ids, s, 0),
    ensures
        ordered_from(ids, s.remove(r), 0),
{
    let t = s.remove(r);
    assert forall|a: int, b: int| 0 <= a < b < t.len() implies catalog_before(ids, t[a], t[b]) by {
        let sa = if a < r { a } else { a + 1 };
        let sb = if b < r { b } else { b + 1 };
        assert(t[a] == s[sa] && t[b] == s[sb]);
    }
}

} // verus!

verus! {

/// Whether `id` is already in `list`.
fn list_has(list: &Vec<String>, id: &String) -> (r: bool)
    ensures
        r == views(list@).contains(id@),
{
    let mut q: usize = 0;
    while q < list.len()
        invariant
            q <= list@.len(),
            forall|r: int| 0 <= r < q ==> list@[r]@ != id@,
        decreases list@.len() - q,
    {
        if list[q] == *id {
            assert(views(list@)[q as int] == id@);
            return true;
        }
        q = q + 1;
    }
    assert forall|r: int| 0 <= r < views(list@).len() implies views(list@)[r] != id@ by {
        assert(views(list@)[r] == list@[r]@);
    }
    false
}

/// Adds `id` (whose lowercase chars are `key`) to a catalog list kept in
/// catalog order, unless it is already there. `i` is the position of `id` in
/// the listing `ids`; the list holds only ids listed before it.
fn add_to_list(
    list: &mut Vec<String>,
    keys: &mut Vec<Vec<char>>,
    id: &String,
    key: Vec<char>,
    Ghost(ids): Ghost<Seq<Seq<char>>>,
    Ghost(i): Ghost<int>,
)
    requires
        key@ == lower_seq(id@),
        0 <= i < ids.len(),
        ids[i] == id@,
        no_dups(views(old(list)@)),
        ordered_from(ids, views(old(list)@), 0),
        old(keys)@.len() == old(list)@.len(),
        forall|q: int| 0 <= q < old(keys)@.len() ==> (#[trigger] old(keys)@[q])@ == lower_seq(
            old(list)@[q]@,
        ),
        forall|q: int| 0 <= q < old(list)@.len() ==> first_pos(ids, #[trigger] old(list)@[q]@) < i,
        !views(old(list)@).contains(id@) ==> forall|k: int| 0 <= k < i ==> ids[k] != id@,
    ensures
        forall|x: Seq<char>| #[trigger] views(final(list)@).contains(x) <==> (views(
            old(list)@,
        ).contains(x) || x == id@),
        no_dups(views(final(list)@)),
        ordered_from(ids, views(final(list)@), 0),
        final(keys)@.len() == final(list)@.len(),
        forall|q: int| 0 <= q < final(keys)@.len() ==> (#[trigger] final(keys)@[q])@ == lower_seq(
            final(list)@[q]@,
        ),
{
    if list_has(list, id) {
        return;
    }
    let ghost old_views = views(list@);
    proof {
        lemma_first_pos_at(ids, id@, i);
        assert forall|q: int| 0 <= q < old_views.len() implies first_pos(
            ids,
            #[trigger] old_views[q],
        ) < first_pos(ids, id@) by {
            assert(old_views[q] == list@[q]@);
        }
    }
    let mut p: usize = 0;
    while p < keys.len() && crate::text::lex_le_chars(&keys[p], &key)
        invariant
            p <= keys@.len(),
            keys@.len() == list@.len(),
            old_views == views(list@),
            forall|q: int| 0 <= q < keys@.len() ==> (#[trigger] keys@[q])@ == lower_seq(
                list@[q]@,
            ),
            forall|q: int| 0 <= q < p ==> lex_le(#[trigger] lower_seq(old_views[q]), key@),
        decreases keys@.len() - p,
    {
        assert(keys@[p as int]@ == lower_seq(old_views[p as int]));
        p = p + 1;
    }
    proof {
        if p < keys@.len() {
            let kp = keys@[p as int]@;
            assert(kp == lower_seq(old_views[p as int]));
            assert(!lex_le(kp, key@));
            lemma_lex_total(kp, key@);
            lemma_lex_total(key@, key@);
        }
        lemma_insert_ordered(ids, old_views, p as int, id@);
    }
    list.insert(p, id.clone());
    keys.insert(p, key);
    proof {
        let nv = views(list@);
        assert(nv =~= old_views.insert(p as int, id@));
        assert forall|x: Seq<char>| #[trigger] nv.contains(x) <==> (old_views.contains(x) || x
            == id@) by {
            if nv.contains(x) {
                let j = choose|j: int| 0 <= j < nv.len() && nv[j] == x;
                if j < p {
                    assert(old_views[j] == x);
                } else if j > p {
                    assert(old_views[j - 1] == x);
                }
            }
            if old_views.contains(x) {
                let j = choose|j: int| 0 <= j < old_views.len() && old_views[j] == x;
                if j < p {
                    assert(nv[j] == x);
                } else {
                    assert(nv[j + 1] == x);
                }
            }
            if x == id@ {
                assert(nv[p as int] == x);
            }
        }
        assert forall|a: int, b: int| 0 <= a < b < nv.len() implies nv[a] != nv[b] by {
            if a == p {
                assert(old_views.contains(nv[b]));
            } else if b == p {
                assert(old_views.contains(nv[a]));
            } else {
                let sa = if a < p { a } else { a - 1 };
                let sb = if b < p { b } else { b - 1 };
                assert(nv[a] == old_views[sa] && nv[b] == old_views[sb]);
            }
        }
        assert forall|q: int| 0 <= q < keys@.len() implies (#[trigger] keys@[q])@ == lower_seq(
            list@[q]@,
        ) by {
            assert(list@[q]@ == nv[q]);
        }
    }
}

} // verus!

verus! {

/// Moves `first` to the front of a catalog list, when present.
fn move_to_front(list: &mut Vec<String>, first: &str, Ghost(ids): Ghost<Seq<Seq<char>>>)
    requires
        no_dups(views(old(list)@)),
        ordered_from(ids, views(old(list)@), 0),
    ensures
        forall|x: Seq<char>| #[trigger] views(final(list)@).contains(x) <==> views(
            old(list)@,
        ).contains(x),
        no_dups(views(final(list)@)),
        if views(final(list)@).contains(first@) {
            views(final(list)@)[0] == first@ && ordered_from(ids, views(final(list)@), 1)
        } else {
            ordered_from(ids, views(final(list)@), 0)
        },
{
    let ghost old_views = views(list@);
    let mut pos: usize = 0;
    while pos < list.len() && !crate::text::str_eq(list[pos].as_str(), first)
        invariant
            pos <= list@.len(),
            old_views == views(list@),
            forall|r: int| 0 <= r < pos ==> list@[r]@ != first@,
        decreases list@.len() - pos,
    {
        pos = pos + 1;
    }
    if pos == list.len() {
        assert forall|r: int| 0 <= r < old_views.len() implies old_views[r] != first@ by {
            assert(old_views[r] == list@[r]@);
        }
        return;
    }
    assert(list@[pos as int]@ == first@);
    let d = list.remove(pos);
    list.insert(0, d);
    proof {
        let rest = old_views.remove(pos as int);
        let nv = views(list@);
        assert(nv =~= seq![first@] + rest);
        lemma_remove_ordered(ids, old_views, pos as int);
        assert forall|a: int, b: int| 1 <= a < b < nv.len() implies catalog_before(
            ids,
            nv[a],
            nv[b],
        ) by {
            assert(nv[a] == rest[a - 1] && nv[b] == rest[b - 1]);
        }
        assert forall|x: Seq<char>| #[trigger] nv.contains(x) <==> old_views.contains(x) by {
            if nv.contains(x) {
                let j = choose|j: int| 0 <= j < nv.len() && nv[j] == x;
                if j == 0 {
                    assert(old_views[pos as int] == x);
                } else if j - 1 < pos {
                    assert(old_views[j - 1] == x);
                } else {
                    assert(old_views[j] == x);
                }
            }
            if old_views.contains(x) {
                let j = choose|j: int| 0 <= j < old_views.len() && old_views[j] == x;
                if j == pos {
                    assert(nv[0] == x);
                } else if j < pos {
                    assert(nv[j + 1] == x);
                } else {
                    assert(nv[j] == x);
                }
            }
        }
        assert forall|a: int, b: int| 0 <= a < b < nv.len() implies nv[a] != nv[b] by {
            let sa = if a == 0 { pos as int } else if a - 1 < pos { a - 1 } else { a as int };
            let sb = if b == 0 { pos as int } else if b - 1 < pos { b - 1 } else { b as int };
            assert(nv[a] == old_views[sa] && nv[b] == old_views[sb]);
        }
        assert(nv.contains(first@)) by {
            assert(nv[0] == first@);
        }
    }
}

proof fn lemma_take_step(ids: Seq<Seq<char>>, i: int, x: Seq<char>)
    requires
        0 <= i < ids.len(),
    ensures
        ids.take(i + 1).contains(x) <==> (ids.take(i).contains(x) || x == ids[i]),
{
    if ids.take(i + 1).contains(x) {
        let t = ids.take(i + 1);
        let j = choose|j: int| 0 <= j < t.len() && t[j] == x;
        if j < i {
            assert(ids.take(i)[j] == x);
        }
    }
    if ids.take(i).contains(x) {
        let t = ids.take(i);
        let j = choose|j: int| 0 <= j < t.len() && t[j] == x;
        assert(ids.take(i + 1)[j] == x);
    }
    if x == ids[i] {
        assert(ids.take(i + 1)[i] == x);
    }
}

/// Classifies, deduplicates and orders the model ids listed by a provider.
/// Speech-to-text: the provider's default model first (the settings screen
/// takes the first as the default), the rest in case-insensitive order.
/// Chat: case-insensitive order. Ids that differ only in case keep the order
/// in which the provider listed them; unclassified ids are left out.
pub fn build_catalog(ids: Vec<String>, provider_id: &str, default: &str) -> (catalog: ModelCatalog)
    ensures
        is_catalog_list(
            views(ids@),
            provider_id@,
            ModelKind::Stt,
            views(catalog.stt@),
            Some(default@),
        ),
        is_catalog_list(views(ids@), provider_id@, ModelKind::Chat, views(catalog.chat@), None),
{
    let ghost idv = views(ids@);
    let mut stt: Vec<String> = Vec::new();
    let mut stt_keys: Vec<Vec<char>> = Vec::new();
    let mut chat: Vec<String> = Vec::new();
    let mut chat_keys: Vec<Vec<char>> = Vec::new();
    let mut i: usize = 0;
    while i < ids.len()
        invariant
            i <= ids@.len(),
            idv == views(ids@),
            forall|x: Seq<char>| #[trigger] views(stt@).contains(x) <==> listed_as(
                idv.take(i as int),
                provider_id@,
                ModelKind::Stt,
                x,
            ),
            forall|x: Seq<char>| #[trigger] views(chat@).contains(x) <==> listed_as(
                idv.take(i as int),
                provider_id@,
                ModelKind::Chat,
                x,
            ),
            no_dups(views(stt@)),
            no_dups(views(chat@)),
            ordered_from(idv, views(stt@), 0),
            ordered_from(idv, views(chat@), 0),
            stt_keys@.len() == stt@.len(),
            chat_keys@.len() == chat@.len(),
            forall|q: int| 0 <= q < stt_keys@.len() ==> (#[trigger] stt_keys@[q])@ == lower_seq(
                stt@[q]@,
            ),
            forall|q: int| 0 <= q < chat_keys@.len() ==> (#[trigger] chat_keys@[q])@
                == lower_seq(chat@[q]@),
        decreases ids@.len() - i,
    {
        let id = &ids[i];
        assert(idv[i as int] == id@);
        let kind = classify_for(provider_id, id.as_str());
        let ghost before_stt = views(stt@);
        let ghost before_chat = views(chat@);
        proof {
            assert forall|q: int| 0 <= q < stt@.len() implies first_pos(
                idv,
                #[trigger] stt@[q]@,
            ) < i by {
                assert(before_stt[q] == stt@[q]@);
                assert(before_stt.contains(stt@[q]@));
                lemma_first_pos_within(idv, stt@[q]@, i as int);
            }
            assert forall|q: int| 0 <= q < chat@.len() implies first_pos(
                idv,
                #[trigger] chat@[q]@,
            ) < i by {
                assert(before_chat[q] == chat@[q]@);
                assert(before_chat.contains(chat@[q]@));
                lemma_first_pos_within(idv, chat@[q]@, i as int);
            }
            assert forall|k: int| 0 <= k < i && idv[k] == id@ implies idv.take(i as int).contains(
                id@,
            ) by {
                assert(idv.take(i as int)[k] == id@);
            }
        }
        match kind {
            Some(ModelKind::Stt) => {
                let key = crate::text::lower_chars(id.as_str());
                add_to_list(&mut stt, &mut stt_keys, id, key, Ghost(idv), Ghost(i as int));
            },
            Some(ModelKind::Chat) => {
                let key = crate::text::lower_chars(id.as_str());
                add_to_list(&mut chat, &mut chat_keys, id, key, Ghost(idv), Ghost(i as int));
            },
            None => {},
        }
        proof {
            assert forall|x: Seq<char>| #[trigger] views(stt@).contains(x) <==> listed_as(
                idv.take(i + 1),
                provider_id@,
                ModelKind::Stt,
                x,
            ) by {
                lemma_take_step(idv, i as int, x);
            }
            assert forall|x: Seq<char>| #[trigger] views(chat@).contains(x) <==> listed_as(
                idv.take(i + 1),
                provider_id@,
                ModelKind::Chat,
                x,
            ) by {
                lemma_take_step(idv, i as int, x);
            }
        }
        i = i + 1;
    }
    assert(idv.take(ids@.len() as int) =~= idv);
    move_to_front(&mut stt, default, Ghost(idv));
    ModelCatalog { stt, chat }
}

} // verus!
