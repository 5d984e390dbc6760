//! A keyed collection of HTML attributes with merge/replace semantics.
//!
//! The set never holds two attributes of the same identity (see
//! [`AttrView::same_identity`]). Inserting a colliding attribute either
//! merges the values (append mode) or overwrites the entry (replace mode);
//! the mode is a toggle that only affects subsequent inserts. Entries keep
//! their insertion order, which makes rendering deterministic.

use vstd::prelude::*;

use crate::html::html_attribute::AttrView;
use crate::html::html_attribute::HtmlAttribute;

verus! {

/// Whether some entry of `s` has the same identity as `a`.
pub open spec fn has_identity(s: Seq<AttrView>, a: AttrView) -> bool {
    exists|i: int| 0 <= i < s.len() && s[i].same_identity(a)
}

/// Well-formedness of a sequence of attribute entries: no two entries share
/// an identity.
pub open spec fn entries_wf(s: Seq<AttrView>) -> bool {
    forall|i: int, j: int|
        0 <= i < j < s.len() ==> !(#[trigger] s[i]).same_identity(#[trigger] s[j])
}

/// The result of inserting `a` in append mode: the first entry with the
/// same identity is merged with `a`; if none exists, `a` is appended.
pub open spec fn spec_insert_append(s: Seq<AttrView>, a: AttrView) -> Seq<AttrView>
    decreases s.len(),
{
    if s.len() == 0 {
        seq![a]
    } else if s[0].same_identity(a) {
        seq![s[0].merged_with(a)] + s.drop_first()
    } else {
        seq![s[0]] + spec_insert_append(s.drop_first(), a)
    }
}

/// The result of inserting `a` in replace mode: the first entry with the
/// same identity is overwritten by `a`; if none exists, `a` is appended.
pub open spec fn spec_insert_replace(s: Seq<AttrView>, a: AttrView) -> Seq<AttrView>
    decreases s.len(),
{
    if s.len() == 0 {
        seq![a]
    } else if s[0].same_identity(a) {
        seq![a] + s.drop_first()
    } else {
        seq![s[0]] + spec_insert_replace(s.drop_first(), a)
    }
}

/// The result of removing the entry with the same identity as `a`, if any.
pub open spec fn spec_remove(s: Seq<AttrView>, a: AttrView) -> Seq<AttrView>
    decreases s.len(),
{
    if s.len() == 0 {
        Seq::empty()
    } else if s[0].same_identity(a) {
        s.drop_first()
    } else {
        seq![s[0]] + spec_remove(s.drop_first(), a)
    }
}

/// The markup form of a sequence of entries: each entry rendered in order,
/// every one with its leading space.
pub open spec fn spec_render_entries(s: Seq<AttrView>) -> Seq<char>
    decreases s.len(),
{
    if s.len() == 0 {
        Seq::empty()
    } else {
        s[0].rendered() + spec_render_entries(s.drop_first())
    }
}

/// The entries of `base` whose identity is not touched by any entry of
/// `over`, in their original order.
pub open spec fn spec_surviving(base: Seq<AttrView>, over: Seq<AttrView>) -> Seq<AttrView>
    decreases base.len(),
{
    if base.len() == 0 {
        Seq::empty()
    } else {
        let rest = spec_surviving(base.drop_first(), over);
        if has_identity(over, base[0]) {
            rest
        } else {
            seq![base[0]] + rest
        }
    }
}

/// The result of one insert under the given mode.
pub open spec fn spec_mode_insert(s: Seq<AttrView>, replace: bool, a: AttrView) -> Seq<AttrView> {
    if replace {
        spec_insert_replace(s, a)
    } else {
        spec_insert_append(s, a)
    }
}

/// The entries that a render with overrides emits: the surviving entries of
/// the base, then every override entry.
pub open spec fn spec_override(base: Seq<AttrView>, over: Seq<AttrView>) -> Seq<AttrView> {
    spec_surviving(base, over) + over
}

/// A keyed set of HTML attributes. `entries` holds at most one attribute of
/// each identity, in insertion order; `replace` is the current insertion
/// mode.
#[derive(Debug)]
pub struct AttributeSet {
    pub entries: Vec<HtmlAttribute>,
    pub replace: bool,
}

impl View for AttributeSet {
    type V = Seq<AttrView>;

    open spec fn view(&self) -> Seq<AttrView> {
        self.entries@.map_values(|e: HtmlAttribute| e@)
    }
}

impl AttributeSet {
    /// No two entries of the set share an identity.
    pub open spec fn wf(&self) -> bool {
        entries_wf(self@)
    }

    /// An empty set in append mode.
    pub fn new() -> (r: AttributeSet)
        ensures
            r@ == Seq::<AttrView>::empty(),
            !r.replace,
            r.wf(),
    {
        let r = AttributeSet { entries: Vec::new(), replace: false };
        proof {
            assert(r@ =~= Seq::<AttrView>::empty());
        }
        r
    }

    /// Adds `attr` to the set. If an entry with the same identity exists,
    /// the current mode decides: append mode merges the values, replace
    /// mode overwrites the entry. The mode itself is unchanged.
    pub fn insert(&mut self, attr: HtmlAttribute)
        ensures
            final(self)@ == if old(self).replace {
                spec_insert_replace(old(self)@, attr@)
            } else {
                spec_insert_append(old(self)@, attr@)
            },
            final(self).replace == old(self).replace,
            old(self).wf() ==> final(self).wf(),
    {
        proof {
            if self.wf() {
                if self.replace {
                    lemma_insert_replace_wf(self@, attr@);
                } else {
                    lemma_insert_append_wf(self@, attr@);
                }
            }
        }
        let ghost s = self@;
        let n = self.entries.len();
        let mut i: usize = 0;
        while i < n
            invariant
                n == s.len(),
                0 <= i <= n,
                self@ == s,
                self.entries@.len() == n,
                self.replace == old(self).replace,
                self.entries == old(self).entries,
                forall|k: int| 0 <= k < i ==> !s[k].same_identity(attr@),
            decreases n - i,
        {
            if self.entries[i].eq(&attr) {
                proof {
                    lemma_insert_found(s, attr@, i as int, self.replace);
                }
                if self.replace {
                    self.entries.set(i, attr);
                } else {
                    let merged = HtmlAttribute::merge(&self.entries[i], &attr);
                    self.entries.set(i, merged);
                }
                proof {
                    assert(self@ =~= s.update(
                        i as int,
                        if old(self).replace {
                            attr@
                        } else {
                            s[i as int].merged_with(attr@)
                        },
                    ));
                }
                return ;
            }
            i = i + 1;
        }
        proof {
            lemma_insert_missing(s, attr@, self.replace);
        }
        self.entries.push(attr);
        proof {
            assert(self@ =~= s + seq![attr@]);
        }
    }

    /// Deletes the entry with the same identity as `attr`, if one exists;
    /// a set without such an entry is left unchanged.
    pub fn remove(&mut self, attr: &HtmlAttribute)
        ensures
            final(self)@ == spec_remove(old(self)@, attr@),
            final(self).replace == old(self).replace,
            old(self).wf() ==> final(self).wf(),
    {
        proof {
            if self.wf() {
                lemma_remove_wf(self@, attr@);
            }
        }
        let ghost s = self@;
        let n = self.entries.len();
        let mut i: usize = 0;
        while i < n
            invariant
                n == s.len(),
                0 <= i <= n,
                self@ == s,
                self.entries@.len() == n,
                self.replace == old(self).replace,
                self.entries == old(self).entries,
                forall|k: int| 0 <= k < i ==> !s[k].same_identity(attr@),
            decreases n - i,
        {
            if self.entries[i].eq(attr) {
                proof {
                    lemma_remove_found(s, attr@, i as int);
                }
                self.entries.remove(i);
                proof {
                    assert(self@ =~= s.remove(i as int));
                }
                return ;
            }
            i = i + 1;
        }
        proof {
            lemma_remove_missing(s, attr@);
        }
    }

    /// Whether the set holds an entry with the same identity as `attr`.
    pub fn contains(&self, attr: &HtmlAttribute) -> (r: bool)
        ensures
            r == has_identity(self@, attr@),
    {
        let n = self.entries.len();
        let mut i: usize = 0;
        while i < n
            invariant
                n == self.entries@.len(),
                0 <= i <= n,
                forall|k: int| 0 <= k < i ==> !self@[k].same_identity(attr@),
            decreases n - i,
        {
            if self.entries[i].eq(attr) {
                proof {
                    assert(self@[i as int].same_identity(attr@));
                }
                return true;
            }
            i = i + 1;
        }
        false
    }

    /// The markup form of the whole set: every entry in order, each with
    /// its leading space.
    pub fn render(&self) -> (r: String)
        ensures
            r@ == spec_render_entries(self@),
    {
        let mut out = String::new();
        let n = self.entries.len();
        let mut i: usize = 0;
        while i < n
            invariant
                n == self.entries@.len(),
                0 <= i <= n,
                out@ == spec_render_entries(self@.take(i as int)),
            decreases n - i,
        {
            let piece = self.entries[i].render();
            out.append(piece.as_str());
            proof {
                lemma_render_entries_concat(self@.take(i as int), seq![self@[i as int]]);
                assert(self@.take(i as int) + seq![self@[i as int]] =~= self@.take(i + 1 as int));
                lemma_render_singleton(self@[i as int]);
            }
            i = i + 1;
        }
        proof {
            assert(self@.take(n as int) =~= self@);
        }
        out
    }

    /// The markup form of the set under an override set: every entry of
    /// this set whose identity the overrides do not touch, in order, then
    /// every override entry. Neither set is changed.
    pub fn render_with(&self, over: &AttributeSet) -> (r: String)
        ensures
            r@ == spec_render_entries(spec_override(self@, over@)),
    {
        let mut out = String::new();
        let n = self.entries.len();
        let mut i: usize = 0;
        while i < n
            invariant
                n == self.entries@.len(),
                0 <= i <= n,
                out@ == spec_render_entries(spec_surviving(self@.take(i as int), over@)),
            decreases n - i,
        {
            let ghost prefix = self@.take(i as int);
            if !over.contains(&self.entries[i]) {
                let piece = self.entries[i].render();
                out.append(piece.as_str());
            }
            proof {
                lemma_surviving_snoc(prefix, self@[i as int], over@);
                assert(prefix + seq![self@[i as int]] =~= self@.take(i + 1 as int));
                if !has_identity(over@, self@[i as int]) {
                    lemma_render_entries_concat(
                        spec_surviving(prefix, over@),
                        seq![self@[i as int]],
                    );
                    lemma_render_singleton(self@[i as int]);
                }
            }
            i = i + 1;
        }
        let rest = over.render();
        out.append(rest.as_str());
        proof {
            assert(self@.take(n as int) =~= self@);
            lemma_render_entries_concat(spec_surviving(self@, over@), over@);
        }
        out
    }

    /// An equal copy of this set: same entries in the same order, same mode.
    pub fn duplicate(&self) -> (r: AttributeSet)
        ensures
            r@ == self@,
            r.entries@ == self.entries@,
            r.replace == self.replace,
    {
        let mut entries: Vec<HtmlAttribute> = Vec::new();
        let n = self.entries.len();
        let mut i: usize = 0;
        while i < n
            invariant
                n == self.entries@.len(),
                0 <= i <= n,
                entries@ == self.entries@.take(i as int),
            decreases n - i,
        {
            entries.push(self.entries[i].duplicate());
            proof {
                assert(entries@ =~= self.entries@.take(i + 1 as int));
            }
            i = i + 1;
        }
        proof {
            assert(entries@ =~= self.entries@);
            assert(entries@.map_values(|e: HtmlAttribute| e@) =~= self@);
        }
        AttributeSet { entries, replace: self.replace }
    }
}

/// Appending one attribute to the base leaves it surviving exactly when the
/// overrides do not touch its identity.
pub proof fn lemma_surviving_snoc(base: Seq<AttrView>, a: AttrView, over: Seq<AttrView>)
    ensures
        spec_surviving(base + seq![a], over) == if has_identity(over, a) {
            spec_surviving(base, over)
        } else {
            spec_surviving(base, over) + seq![a]
        },
    decreases base.len(),
{
    let whole = base + seq![a];
    if base.len() == 0 {
        assert(whole =~= seq![a]);
        assert(whole.drop_first() =~= Seq::<AttrView>::empty());
        assert(spec_surviving(Seq::<AttrView>::empty(), over) == Seq::<AttrView>::empty());
        assert(spec_surviving(whole.drop_first(), over) == Seq::<AttrView>::empty());
        assert(whole[0] == a);
        assert(spec_surviving(base, over) == Seq::<AttrView>::empty());
        if has_identity(over, a) {
            assert(spec_surviving(whole, over) =~= spec_surviving(base, over));
        } else {
            assert(spec_surviving(whole, over) =~= seq![a] + Seq::<AttrView>::empty());
            assert(seq![a] + Seq::<AttrView>::empty() =~= spec_surviving(base, over) + seq![a]);
        }
    } else {
        assert(whole.drop_first() =~= base.drop_first() + seq![a]);
        lemma_surviving_snoc(base.drop_first(), a, over);
        assert(whole[0] == base[0]);
        if has_identity(over, base[0]) {
            assert(spec_surviving(whole, over) == spec_surviving(whole.drop_first(), over));
        } else {
            if has_identity(over, a) {
                assert(spec_surviving(whole, over) =~= spec_surviving(base, over));
            } else {
                assert(spec_surviving(whole, over) =~= spec_surviving(base, over) + seq![a]);
            }
        }
    }
}

/// Merge law, append mode: inserting two pair attributes with the same
/// name into a set that holds no attribute of that identity yields exactly
/// one entry for that name, whose value is the two values joined by a
/// space, in insertion order.
pub proof fn lemma_append_mode_joins_values(
    s: Seq<AttrView>,
    name: Seq<char>,
    v1: Seq<char>,
    v2: Seq<char>,
)
    requires
        !has_identity(s, AttrView::Pair { name, value: v1 }),
    ensures
        spec_insert_append(
            spec_insert_append(s, AttrView::Pair { name, value: v1 }),
            AttrView::Pair { name, value: v2 },
        ) == s + seq![AttrView::Pair { name, value: v1 + " "@ + v2 }],
{
    let p1 = AttrView::Pair { name, value: v1 };
    let p2 = AttrView::Pair { name, value: v2 };
    assert(forall|k: int| 0 <= k < s.len() ==> !(#[trigger] s[k]).same_identity(p1));
    lemma_insert_missing(s, p1, false);
    let t = s + seq![p1];
    assert(forall|k: int| 0 <= k < s.len() ==> !(#[trigger] t[k]).same_identity(p2));
    assert(t[s.len() as int].same_identity(p2));
    lemma_insert_found(t, p2, s.len() as int, false);
    assert(t.update(s.len() as int, p1.merged_with(p2)) =~= s + seq![
        AttrView::Pair { name, value: v1 + " "@ + v2 },
    ]);
}

/// Merge law, replace mode: inserting two pair attributes with the same
/// name into a set that holds no attribute of that identity yields exactly
/// one entry for that name, holding only the second value.
pub proof fn lemma_replace_mode_overwrites(
    s: Seq<AttrView>,
    name: Seq<char>,
    v1: Seq<char>,
    v2: Seq<char>,
)
    requires
        !has_identity(s, AttrView::Pair { name, value: v1 }),
    ensures
        spec_insert_replace(
            spec_insert_replace(s, AttrView::Pair { name, value: v1 }),
            AttrView::Pair { name, value: v2 },
        ) == s + seq![AttrView::Pair { name, value: v2 }],
{
    let p1 = AttrView::Pair { name, value: v1 };
    let p2 = AttrView::Pair { name, value: v2 };
    assert(forall|k: int| 0 <= k < s.len() ==> !(#[trigger] s[k]).same_identity(p1));
    lemma_insert_missing(s, p1, true);
    let t = s + seq![p1];
    assert(forall|k: int| 0 <= k < s.len() ==> !(#[trigger] t[k]).same_identity(p2));
    assert(t[s.len() as int].same_identity(p2));
    lemma_insert_found(t, p2, s.len() as int, true);
    assert(t.update(s.len() as int, p2) =~= s + seq![p2]);
}

/// Rendering a single entry is that entry's markup form.
pub proof fn lemma_render_singleton(a: AttrView)
    ensures
        spec_render_entries(seq![a]) == a.rendered(),
{
    assert(seq![a].drop_first() =~= Seq::<AttrView>::empty());
    assert(spec_render_entries(seq![a].drop_first()) == Seq::<char>::empty());
    assert(a.rendered() + Seq::<char>::empty() =~= a.rendered());
}

/// Rendering distributes over concatenation of entry sequences.
pub proof fn lemma_render_entries_concat(s1: Seq<AttrView>, s2: Seq<AttrView>)
    ensures
        spec_render_entries(s1 + s2) == spec_render_entries(s1) + spec_render_entries(s2),
    decreases s1.len(),
{
    if s1.len() == 0 {
        assert(s1 + s2 =~= s2);
        assert(spec_render_entries(s1) + spec_render_entries(s2) =~= spec_render_entries(s2));
    } else {
        assert((s1 + s2).drop_first() =~= s1.drop_first() + s2);
        lemma_render_entries_concat(s1.drop_first(), s2);
        assert((s1 + s2)[0] == s1[0]);
        assert(s1[0].rendered() + (spec_render_entries(s1.drop_first()) + spec_render_entries(s2))
            =~= (s1[0].rendered() + spec_render_entries(s1.drop_first())) + spec_render_entries(
            s2,
        ));
    }
}

/// When the first matching identity sits at index `i`, inserting is
/// updating that entry.
proof fn lemma_insert_found(s: Seq<AttrView>, a: AttrView, i: int, replace: bool)
    requires
        0 <= i < s.len(),
        s[i].same_identity(a),
        forall|k: int| 0 <= k < i ==> !s[k].same_identity(a),
    ensures
        replace ==> spec_insert_replace(s, a) == s.update(i, a),
        !replace ==> spec_insert_append(s, a) == s.update(i, s[i].merged_with(a)),
    decreases i,
{
    if i == 0 {
        if replace {
            assert(spec_insert_replace(s, a) =~= s.update(0, a));
        } else {
            assert(spec_insert_append(s, a) =~= s.update(0, s[0].merged_with(a)));
        }
    } else {
        lemma_insert_found(s.drop_first(), a, i - 1, replace);
        if replace {
            assert(spec_insert_replace(s, a) =~= s.update(i, a));
        } else {
            assert(s.drop_first()[i - 1] == s[i]);
            assert(spec_insert_append(s, a) =~= s.update(i, s[i].merged_with(a)));
        }
    }
}

/// When no entry matches the identity of `a`, inserting appends it.
proof fn lemma_insert_missing(s: Seq<AttrView>, a: AttrView, replace: bool)
    requires
        forall|k: int| 0 <= k < s.len() ==> !s[k].same_identity(a),
    ensures
        replace ==> spec_insert_replace(s, a) == s + seq![a],
        !replace ==> spec_insert_append(s, a) == s + seq![a],
    decreases s.len(),
{
    if s.len() == 0 {
        assert(s + seq![a] =~= seq![a]);
    } else {
        lemma_insert_missing(s.drop_first(), a, replace);
        if replace {
            assert(spec_insert_replace(s, a) =~= s + seq![a]);
        } else {
            assert(spec_insert_append(s, a) =~= s + seq![a]);
        }
    }
}

/// When the first matching identity sits at index `i`, removal deletes that
/// entry.
proof fn lemma_remove_found(s: Seq<AttrView>, a: AttrView, i: int)
    requires
        0 <= i < s.len(),
        s[i].same_identity(a),
        forall|k: int| 0 <= k < i ==> !s[k].same_identity(a),
    ensures
        spec_remove(s, a) == s.remove(i),
    decreases i,
{
    if i == 0 {
        assert(spec_remove(s, a) =~= s.remove(0));
    } else {
        lemma_remove_found(s.drop_first(), a, i - 1);
        assert(spec_remove(s, a) =~= s.remove(i));
    }
}

/// When no entry matches the identity of `a`, removal changes nothing.
proof fn lemma_remove_missing(s: Seq<AttrView>, a: AttrView)
    requires
        forall|k: int| 0 <= k < s.len() ==> !s[k].same_identity(a),
    ensures
        spec_remove(s, a) == s,
    decreases s.len(),
{
    if s.len() == 0 {
        assert(spec_remove(s, a) =~= s);
    } else {
        lemma_remove_missing(s.drop_first(), a);
        assert(spec_remove(s, a) =~= s);
    }
}

/// Append-mode insertion preserves well-formedness.
proof fn lemma_insert_append_wf(s: Seq<AttrView>, a: AttrView)
    requires
        entries_wf(s),
    ensures
        entries_wf(spec_insert_append(s, a)),
{
    if exists|i: int| 0 <= i < s.len() && s[i].same_identity(a) {
        let i = choose|i: int|
            0 <= i < s.len() && s[i].same_identity(a) && forall|k: int|
                0 <= k < i ==> !s[k].same_identity(#[trigger] s[i]) || true;
        lemma_first_match(s, a);
        let j = first_match_index(s, a);
        lemma_insert_found(s, a, j, false);
        let t = s.update(j, s[j].merged_with(a));
        assert forall|p: int, q: int| 0 <= p < q < t.len() implies !(#[trigger] t[p]).same_identity(
            #[trigger] t[q],
        ) by {
            assert(!s[p].same_identity(s[q]));
            lemma_merged_same_identity(s[j], a);
        }
    } else {
        assert(forall|k: int| 0 <= k < s.len() ==> !(#[trigger] s[k]).same_identity(a));
        lemma_insert_missing(s, a, false);
        let t = s + seq![a];
        assert forall|p: int, q: int| 0 <= p < q < t.len() implies !(#[trigger] t[p]).same_identity(
            #[trigger] t[q],
        ) by {
            if q < s.len() {
                assert(!s[p].same_identity(s[q]));
            } else {
                assert(t[q] == a);
                assert(!s[p].same_identity(a));
            }
        }
    }
}

/// Replace-mode insertion preserves well-formedness.
proof fn lemma_insert_replace_wf(s: Seq<AttrView>, a: AttrView)
    requires
        entries_wf(s),
    ensures
        entries_wf(spec_insert_replace(s, a)),
{
    if exists|i: int| 0 <= i < s.len() && s[i].same_identity(a) {
        lemma_first_match(s, a);
        let j = first_match_index(s, a);
        lemma_insert_found(s, a, j, true);
        let t = s.update(j, a);
        assert forall|p: int, q: int| 0 <= p < q < t.len() implies !(#[trigger] t[p]).same_identity(
            #[trigger] t[q],
        ) by {
            assert(!s[p].same_identity(s[q]));
            lemma_identity_symmetric_transitive(s, a, j, p, q);
        }
    } else {
        assert(forall|k: int| 0 <= k < s.len() ==> !(#[trigger] s[k]).same_identity(a));
        lemma_insert_missing(s, a, true);
        let t = s + seq![a];
        assert forall|p: int, q: int| 0 <= p < q < t.len() implies !(#[trigger] t[p]).same_identity(
            #[trigger] t[q],
        ) by {
            if q < s.len() {
                assert(!s[p].same_identity(s[q]));
            } else {
                assert(t[q] == a);
                assert(!s[p].same_identity(a));
            }
        }
    }
}

/// Removal preserves well-formedness.
proof fn lemma_remove_wf(s: Seq<AttrView>, a: AttrView)
    requires
        entries_wf(s),
    ensures
        entries_wf(spec_remove(s, a)),
{
    if exists|i: int| 0 <= i < s.len() && s[i].same_identity(a) {
        lemma_first_match(s, a);
        let j = first_match_index(s, a);
        lemma_remove_found(s, a, j);
        let t = s.remove(j);
        assert forall|p: int, q: int| 0 <= p < q < t.len() implies !(#[trigger] t[p]).same_identity(
            #[trigger] t[q],
        ) by {
            let p0 = if p < j {
                p
            } else {
                p + 1
            };
            let q0 = if q < j {
                q
            } else {
                q + 1
            };
            assert(t[p] == s[p0]);
            assert(t[q] == s[q0]);
            assert(!s[p0].same_identity(s[q0]));
        }
    } else {
        assert(forall|k: int| 0 <= k < s.len() ==> !(#[trigger] s[k]).same_identity(a));
        lemma_remove_missing(s, a);
    }
}

/// The first index of `s` whose entry has the same identity as `a`.
spec fn first_match_index(s: Seq<AttrView>, a: AttrView) -> int {
    choose|j: int|
        0 <= j < s.len() && s[j].same_identity(a) && forall|k: int|
            0 <= k < j ==> !(#[trigger] s[k]).same_identity(a)
}

/// When some entry matches, a first matching index exists.
proof fn lemma_first_match(s: Seq<AttrView>, a: AttrView)
    requires
        exists|i: int| 0 <= i < s.len() && s[i].same_identity(a),
    ensures
        0 <= first_match_index(s, a) < s.len(),
        s[first_match_index(s, a)].same_identity(a),
        forall|k: int| 0 <= k < first_match_index(s, a) ==> !(#[trigger] s[k]).same_identity(a),
    decreases s.len(),
{
    let i = choose|i: int| 0 <= i < s.len() && s[i].same_identity(a);
    if s[0].same_identity(a) {
        assert(0 <= 0 < s.len() && s[0].same_identity(a) && forall|k: int|
            0 <= k < 0 ==> !(#[trigger] s[k]).same_identity(a));
    } else {
        assert(s.drop_first()[i - 1] == s[i]);
        lemma_first_match(s.drop_first(), a);
        let j = first_match_index(s.drop_first(), a);
        assert(s[j + 1] == s.drop_first()[j]);
        assert(forall|k: int| 1 <= k < j + 1 ==> s.drop_first()[k - 1] == (#[trigger] s[k]));
        assert(0 <= j + 1 < s.len() && s[j + 1].same_identity(a) && forall|k: int|
            0 <= k < j + 1 ==> !(#[trigger] s[k]).same_identity(a));
    }
}

/// Merging keeps the identity of the entry that was already in the set.
proof fn lemma_merged_same_identity(e: AttrView, a: AttrView)
    ensures
        forall|x: AttrView| x.same_identity(e) <==> x.same_identity(#[trigger] e.merged_with(a)),
        forall|x: AttrView| e.same_identity(x) <==> (#[trigger] e.merged_with(a)).same_identity(x),
{
}

/// Identity transfers along a shared match: entries that match `a` match
/// each other.
proof fn lemma_identity_symmetric_transitive(s: Seq<AttrView>, a: AttrView, j: int, p: int, q: int)
    requires
        0 <= j < s.len(),
        0 <= p < q < s.len(),
        s[j].same_identity(a),
        !s[p].same_identity(s[q]),
    ensures
        p == j ==> !a.same_identity(s[q]),
        q == j ==> !s[p].same_identity(a),
{
}

} // verus!
