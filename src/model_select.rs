use vstd::prelude::*;
use std::collections::HashMap;
use vstd::std_specs::iter::IteratorSpec;

use crate::model::Model;
use crate::text::{
    char_text, text_of_chars, chars_contain, chars_eq, chars_lt, chars_of, decimal_text, is_infix, labelled_int, lemma_text_lt_transitive, lower_of, lowercase,
    text_lt,
};

verus! {

broadcast use vstd::std_specs::hash::group_hash_axioms;

/// Which list of models a selection dialog edits.
#[derive(Debug, Clone, PartialEq, Eq, Structural)]
pub enum ModelSelectionMode {
    DefaultModels,
    CurrentChatModels,
}

/// Input mode of the selection dialog.
#[derive(Debug, Clone, PartialEq, Eq, Structural)]
pub enum ModelDialogMode {
    Normal,
    Search,
    Visual,
}

/// What a key press in the dialog leads to.
#[derive(Debug)]
pub enum ModalResult {
    /// The dialog stays open.
    Continue,
    /// Apply these model identities, in this order.
    Apply(Vec<i64>),
}

/// A key press as the dialog reads it.
#[derive(Debug, Clone, Copy, PartialEq, Eq, Structural)]
pub enum ModalKey {
    Char(char),
    Backspace,
    Enter,
    Esc,
    Other,
}

/// Keys that toggle the model under the cursor (or the visual range).
pub open spec fn is_toggle_key(k: ModalKey) -> bool {
    k == ModalKey::Char('l') || k == ModalKey::Char('h') || k == ModalKey::Char(' ') || k == ModalKey::Enter
}

/// Keys that clear the search text in normal mode.
pub open spec fn is_clear_key(k: ModalKey) -> bool {
    k == ModalKey::Char('x') || k == ModalKey::Char('q') || k == ModalKey::Char('c') || k == ModalKey::Char('d')
}

/// A decimal digit.
pub open spec fn is_digit(c: char) -> bool {
    '0' <= c && c <= '9'
}

/// The count prefix after typing digit `c`, saturating at the largest count.
pub open spec fn prefix_after(p: Option<usize>, c: char) -> usize {
    let v = (match p {
        Some(x) => x as int,
        None => 0int,
    }) * 10 + (c as int - '0' as int);
    if v > usize::MAX { usize::MAX } else { v as usize }
}

/// Moves a cursor down by `count` within `n` rows.
pub open spec fn cursor_down(i: usize, count: usize, n: int) -> usize {
    if n > 0 {
        if i + count > n - 1 { (n - 1) as usize } else { (i + count) as usize }
    } else {
        i
    }
}

/// Moves a cursor up by `count`, stopping at the top.
pub open spec fn cursor_up(i: usize, count: usize, n: int) -> usize {
    if n > 0 {
        if i >= count { (i - count) as usize } else { 0 }
    } else {
        i
    }
}

/// Row `i` lies in the visual range `lo..=hi` and is listed (`i < n`).
pub open spec fn in_vrange(lo: int, hi: int, n: int, i: int) -> bool {
    lo <= i <= hi && i < n
}

/// Model `k` is listed at some row of the visual range `lo..=hi` before row `upto`.
pub open spec fn listed_in_range(listed: Seq<(i64, Model)>, lo: int, hi: int, n: int, upto: int, k: i64) -> bool {
    exists|j: int| lo <= j < upto && in_vrange(lo, hi, n, j) && #[trigger] listed[j].0 == k
}

/// The first row of the visual range between rows `a` and `b`.
pub open spec fn range_low(a: usize, b: usize) -> int {
    if a < b { a as int } else { b as int }
}

/// The last row of the visual range between rows `a` and `b`.
pub open spec fn range_high(a: usize, b: usize) -> int {
    if a < b { b as int } else { a as int }
}

/// `next` is `states` with every model listed in the visual range set to
/// off when all of them were on, and to on otherwise; other models keep
/// their state.
pub open spec fn toggled_range(
    states: Map<i64, bool>,
    next: Map<i64, bool>,
    listed: Seq<(i64, Model)>,
    lo: int,
    hi: int,
    n: int,
) -> bool {
    let all_on = all_selected_in_range(states, listed, lo, hi, n);
    &&& forall|i: int| #[trigger] in_vrange(lo, hi, n, i) ==> next.contains_key(listed[i].0) && next[listed[i].0] == !all_on
    &&& forall|k: i64| !listed_in_range(listed, lo, hi, n, n, k) ==> (#[trigger] next.contains_key(k) == states.contains_key(k)
        && (states.contains_key(k) ==> next[k] == states[k]))
}

/// Every model listed in the visual range `lo..=hi` is selected.
pub open spec fn all_selected_in_range(states: Map<i64, bool>, listed: Seq<(i64, Model)>, lo: int, hi: int, n: int) -> bool {
    forall|i: int| #[trigger] in_vrange(lo, hi, n, i) ==> is_selected(states, listed[i].0)
}

/// A model is selected when its state is present and true.
pub open spec fn is_selected(states: Map<i64, bool>, id: i64) -> bool {
    states.contains_key(id) && states[id]
}

/// The predicate "is selected in `states`".
pub open spec fn selected_in(states: Map<i64, bool>) -> spec_fn(i64) -> bool {
    |id: i64| is_selected(states, id)
}

/// The predicate "is not `model_id`".
pub open spec fn other_than(model_id: i64) -> spec_fn(i64) -> bool {
    |id: i64| id != model_id
}

/// The predicate "is available and selected".
pub open spec fn enabled_in(avail: Map<i64, Model>, states: Map<i64, bool>) -> spec_fn(i64) -> bool {
    |id: i64| avail.contains_key(id) && is_selected(states, id)
}

/// Order of the unselected models: by provider, then by name, then by identity.
pub open spec fn entry_lt(x: (i64, Model), y: (i64, Model)) -> bool {
    x.1.provider_id < y.1.provider_id || (x.1.provider_id == y.1.provider_id && (text_lt(x.1.model@, y.1.model@) || (
    x.1.model@ == y.1.model@ && x.0 < y.0)))
}

/// The order of the unselected models is transitive.
pub proof fn lemma_entry_lt_transitive(x: (i64, Model), y: (i64, Model), z: (i64, Model))
    requires
        entry_lt(x, y),
        entry_lt(y, z),
    ensures
        entry_lt(x, z),
{
    if text_lt(x.1.model@, y.1.model@) && text_lt(y.1.model@, z.1.model@) {
        lemma_text_lt_transitive(x.1.model@, y.1.model@, z.1.model@);
    }
}

/// No entry comes before itself.
pub proof fn lemma_entry_lt_irreflexive(x: (i64, Model))
    ensures
        !entry_lt(x, x),
{
    lemma_text_lt_irreflexive(x.1.model@);
}

/// No text comes before itself.
pub proof fn lemma_text_lt_irreflexive(a: Seq<char>)
    ensures
        !text_lt(a, a),
    decreases a.len(),
{
    if a.len() > 0 {
        lemma_text_lt_irreflexive(a.drop_first());
    }
}

/// State of the dialog that picks and orders the models of a profile.
pub struct ModelSelectModal {
    pub mode: ModelSelectionMode,
    pub selection_index: usize,
    /// model id -> selected.
    pub selection_states: HashMap<i64, bool>,
    /// Order of the selected models.
    pub enabled_model_order: Vec<i64>,
    pub dialog_mode: ModelDialogMode,
    pub search_query: String,
    pub numeric_prefix: Option<usize>,
    pub last_key: Option<char>,
    pub visual_start_index: Option<usize>,
    pub available_models: HashMap<i64, Model>,
    pub provider_names: HashMap<i64, String>,
}

/// The first position of `id` in `s`, when there is one.
pub open spec fn first_pos(s: Seq<i64>, id: i64, p: int) -> bool {
    0 <= p < s.len() && s[p] == id && forall|j: int| 0 <= j < p ==> #[trigger] s[j] != id
}

/// `s` with the entries at `a` and `b` exchanged.
pub open spec fn swapped(s: Seq<i64>, a: int, b: int) -> Seq<i64> {
    s.update(a, s[b]).update(b, s[a])
}

/// The first position of `id` in `v`, if any.
pub fn position_of(v: &Vec<i64>, id: i64) -> (r: Option<usize>)
    ensures
        r matches Some(p) ==> first_pos(v@, id, p as int),
        r is None ==> !v@.contains(id),
{
    let mut i: usize = 0;
    while i < v.len()
        invariant
            i <= v.len(),
            forall|j: int| 0 <= j < i ==> #[trigger] v@[j] != id,
        decreases v.len() - i,
    {
        if v[i] == id {
            return Some(i);
        }
        i += 1;
    }
    None
}

impl ModelSelectModal {
    /// Every field but the order of the selected models is the same.
    pub open spec fn same_but_order(&self, next: &Self) -> bool {
        &&& next.mode == self.mode
        &&& next.selection_index == self.selection_index
        &&& next.selection_states == self.selection_states
        &&& next.dialog_mode == self.dialog_mode
        &&& next.search_query == self.search_query
        &&& next.numeric_prefix == self.numeric_prefix
        &&& next.last_key == self.last_key
        &&& next.visual_start_index == self.visual_start_index
        &&& next.available_models == self.available_models
        &&& next.provider_names == self.provider_names
    }

    /// Opens the dialog on the given models, all selected, in their order.
    pub fn new(
        mode: ModelSelectionMode,
        current_model_ids: &[i64],
        available_models: HashMap<i64, Model>,
        provider_names: HashMap<i64, String>,
    ) -> (r: Self)
        ensures
            r.mode == mode,
            r.selection_index == 0,
            r.enabled_model_order@ == current_model_ids@,
            forall|id: i64| #[trigger] r.selection_states@.contains_key(id) <==> current_model_ids@.contains(id),
            forall|id: i64| r.selection_states@.contains_key(id) ==> #[trigger] r.selection_states@[id],
            r.dialog_mode == ModelDialogMode::Normal,
            r.search_query@.len() == 0,
            r.numeric_prefix is None && r.last_key is None && r.visual_start_index is None,
            r.available_models == available_models,
            r.provider_names == provider_names,
    {
        let mut selection_states: HashMap<i64, bool> = HashMap::new();
        let mut order: Vec<i64> = Vec::new();
        let mut i: usize = 0;
        while i < current_model_ids.len()
            invariant
                i <= current_model_ids@.len(),
                order@ == current_model_ids@.subrange(0, i as int),
                forall|id: i64| #[trigger] selection_states@.contains_key(id) <==> order@.contains(id),
                forall|id: i64| selection_states@.contains_key(id) ==> #[trigger] selection_states@[id],
            decreases current_model_ids@.len() - i,
        {
            let id = current_model_ids[i];
            let ghost prev = order@;
            selection_states.insert(id, true);
            order.push(id);
            assert forall|k: i64| #[trigger] selection_states@.contains_key(k) <==> order@.contains(k) by {
                if prev.contains(k) {
                    let j = choose|j: int| 0 <= j < prev.len() && prev[j] == k;
                    assert(order@[j] == k);
                }
                if order@.contains(k) && k != id {
                    let j = choose|j: int| 0 <= j < order@.len() && order@[j] == k;
                    assert(prev[j] == k);
                }
                if k == id {
                    assert(order@[i as int] == k);
                }
            }
            i += 1;
        }
        assert(current_model_ids@.subrange(0, current_model_ids@.len() as int) == current_model_ids@);
        ModelSelectModal {
            mode,
            selection_index: 0,
            selection_states,
            enabled_model_order: order,
            dialog_mode: ModelDialogMode::Normal,
            search_query: String::new(),
            numeric_prefix: None,
            last_key: None,
            visual_start_index: None,
            available_models,
            provider_names,
        }
    }

    /// The display name of a provider, or `Provider <id>` when it is unknown.
    pub fn get_provider_name(&self, provider_id: i64) -> (r: String)
        ensures
            self.provider_names@.contains_key(provider_id) ==> r == self.provider_names@[provider_id],
            !self.provider_names@.contains_key(provider_id) ==> r@ == "Provider "@ + decimal_text(provider_id as int),
    {
        match self.provider_names.get(&provider_id) {
            Some(name) => name.clone(),
            None => labelled_int("Provider ", provider_id),
        }
    }

    /// The selected models, in their stored order.
    pub fn get_selected_model_ids(&self) -> (r: Vec<i64>)
        ensures
            r@ == self.enabled_model_order@.filter(selected_in(self.selection_states@)),
    {
        let mut r: Vec<i64> = Vec::new();
        let mut i: usize = 0;
        while i < self.enabled_model_order.len()
            invariant
                i <= self.enabled_model_order.len(),
                r@ == self.enabled_model_order@.subrange(0, i as int).filter(selected_in(self.selection_states@)),
            decreases self.enabled_model_order.len() - i,
        {
            let id = self.enabled_model_order[i];
            assert(self.enabled_model_order@.subrange(0, i + 1) == self.enabled_model_order@.subrange(0, i as int).push(id));
            proof {
                self.enabled_model_order@.subrange(0, i as int).lemma_filter_push(id, selected_in(self.selection_states@));
            }
            let selected = match self.selection_states.get(&id) {
                Some(s) => *s,
                None => false,
            };
            if selected {
                r.push(id);
            }
            i += 1;
        }
        assert(self.enabled_model_order@.subrange(0, self.enabled_model_order.len() as int) == self.enabled_model_order@);
        r
    }

    /// Moves a model one place earlier in the order; the first one, or one
    /// that is not in the order, stays where it is.
    pub fn move_model_up(&mut self, model_id: i64)
        ensures
            ({
                let s = old(self).enabled_model_order@;
                if exists|p: int| first_pos(s, model_id, p) && p > 0 {
                    exists|p: int| first_pos(s, model_id, p) && p > 0 && final(self).enabled_model_order@ == swapped(s, p, p - 1)
                } else {
                    final(self).enabled_model_order@ == s
                }
            }),
            old(self).same_but_order(final(self)),
    {
        let ghost s = self.enabled_model_order@;
        match position_of(&self.enabled_model_order, model_id) {
            Some(pos) => {
                if pos > 0 {
                    let a = self.enabled_model_order[pos];
                    let b = self.enabled_model_order[pos - 1];
                    self.enabled_model_order.set(pos, b);
                    self.enabled_model_order.set(pos - 1, a);
                    assert(self.enabled_model_order@ == swapped(s, pos as int, pos - 1));
                } else {
                    assert forall|p: int| first_pos(s, model_id, p) implies p <= 0 by {
                        if p > 0 {
                            assert(s[0] != model_id);
                        }
                    }
                }
            },
            None => {},
        }
    }

    /// Moves a model one place later in the order; the last one, or one that
    /// is not in the order, stays where it is.
    pub fn move_model_down(&mut self, model_id: i64)
        ensures
            ({
                let s = old(self).enabled_model_order@;
                if exists|p: int| first_pos(s, model_id, p) && p + 1 < s.len() {
                    exists|p: int| first_pos(s, model_id, p) && p + 1 < s.len() && final(self).enabled_model_order@ == swapped(s, p, p + 1)
                } else {
                    final(self).enabled_model_order@ == s
                }
            }),
            old(self).same_but_order(final(self)),
    {
        let ghost s = self.enabled_model_order@;
        match position_of(&self.enabled_model_order, model_id) {
            Some(pos) => {
                if pos < self.enabled_model_order.len() - 1 {
                    let a = self.enabled_model_order[pos];
                    let b = self.enabled_model_order[pos + 1];
                    self.enabled_model_order.set(pos, b);
                    self.enabled_model_order.set(pos + 1, a);
                    assert(self.enabled_model_order@ == swapped(s, pos as int, pos + 1));
                } else {
                    assert forall|p: int| first_pos(s, model_id, p) implies p + 1 >= s.len() by {
                        if p < pos {
                            assert(s[p] != model_id);
                        }
                        if p > pos {
                            assert(s[pos as int] != model_id);
                        }
                    }
                }
            },
            None => {},
        }
    }

    /// Appends a model to the order unless it is already there.
    pub fn add_to_order(&mut self, model_id: i64)
        ensures
            old(self).enabled_model_order@.contains(model_id) ==> final(self).enabled_model_order@ == old(self).enabled_model_order@,
            !old(self).enabled_model_order@.contains(model_id) ==> final(self).enabled_model_order@ == old(self).enabled_model_order@.push(model_id),
            old(self).same_but_order(final(self)),
    {
        if position_of(&self.enabled_model_order, model_id).is_none() {
            self.enabled_model_order.push(model_id);
        }
    }

    /// Drops every occurrence of a model from the order.
    pub fn remove_from_order(&mut self, model_id: i64)
        ensures
            final(self).enabled_model_order@ == old(self).enabled_model_order@.filter(other_than(model_id)),
            old(self).same_but_order(final(self)),
    {
        let mut r: Vec<i64> = Vec::new();
        let mut i: usize = 0;
        while i < self.enabled_model_order.len()
            invariant
                i <= self.enabled_model_order.len(),
                r@ == self.enabled_model_order@.subrange(0, i as int).filter(other_than(model_id)),
            decreases self.enabled_model_order.len() - i,
        {
            let id = self.enabled_model_order[i];
            assert(self.enabled_model_order@.subrange(0, i + 1) == self.enabled_model_order@.subrange(0, i as int).push(id));
            proof {
                self.enabled_model_order@.subrange(0, i as int).lemma_filter_push(id, other_than(model_id));
            }
            if id != model_id {
                r.push(id);
            }
            i += 1;
        }
        assert(self.enabled_model_order@.subrange(0, self.enabled_model_order.len() as int) == self.enabled_model_order@);
        self.enabled_model_order = r;
    }

    /// The name shown for a provider.
    pub open spec fn provider_label(&self, provider_id: i64) -> Seq<char> {
        if self.provider_names@.contains_key(provider_id) {
            self.provider_names@[provider_id]@
        } else {
            "Provider "@ + decimal_text(provider_id as int)
        }
    }

    /// The selected available models, in their stored order.
    pub open spec fn enabled_entries(&self) -> Seq<(i64, Model)> {
        self.enabled_model_order@.filter(enabled_in(self.available_models@, self.selection_states@)).map_values(
            |id: i64| (id, self.available_models@[id]),
        )
    }

    /// `d` lists the unselected available models in order.
    pub open spec fn is_disabled_listing(&self, d: Seq<(i64, Model)>) -> bool {
        &&& forall|i: int| 0 <= i < d.len() ==> {
            &&& self.available_models@.contains_key(#[trigger] d[i].0)
            &&& d[i].1 == self.available_models@[d[i].0]
            &&& !is_selected(self.selection_states@, d[i].0)
        }
        &&& forall|k: i64| self.available_models@.contains_key(k) && !is_selected(self.selection_states@, k)
            ==> exists|i: int| 0 <= i < d.len() && #[trigger] d[i].0 == k
        &&& forall|i: int, j: int| 0 <= i < j < d.len() ==> !entry_lt(#[trigger] d[j], #[trigger] d[i])
        &&& forall|i: int, j: int| 0 <= i < j < d.len() ==> (#[trigger] d[i]).0 != (#[trigger] d[j]).0
    }

    /// A listed model matches the search when its name or its provider's
    /// name contains the query, ignoring case.
    pub open spec fn hits(&self) -> spec_fn((i64, Model)) -> bool {
        |e: (i64, Model)| is_infix(lower_of(self.search_query@), lower_of(e.1.model@)) || is_infix(
            lower_of(self.search_query@),
            lower_of(self.provider_label(e.1.provider_id)),
        )
    }

    /// The unselected available models, each once, as (identity, model).
    fn unselected_entries(&self) -> (pool: Vec<(i64, Model)>)
        ensures
            forall|i: int| 0 <= i < pool@.len() ==> {
                &&& self.available_models@.contains_key(#[trigger] pool@[i].0)
                &&& pool@[i].1 == self.available_models@[pool@[i].0]
                &&& !is_selected(self.selection_states@, pool@[i].0)
            },
            forall|k: i64| self.available_models@.contains_key(k) && !is_selected(self.selection_states@, k)
                ==> exists|i: int| 0 <= i < pool@.len() && #[trigger] pool@[i].0 == k,
            forall|i: int, j: int| 0 <= i < j < pool@.len() ==> (#[trigger] pool@[i]).0 != (#[trigger] pool@[j]).0,
    {
        let mut pool: Vec<(i64, Model)> = Vec::new();
        let ghost expected = vstd::std_specs::hash::spec_hash_map_iter(&self.available_models).remaining();
        let ghost mut n: int = 0;
        let entries = self.available_models.iter();
        assert(expected.no_duplicates());
        assert forall|j: int| 0 <= j < expected.len() implies self.available_models@.contains_key(*(#[trigger] expected[j]).0)
            && self.available_models@[*expected[j].0] == *expected[j].1 by {}
        for entry in it: entries
            invariant
                it.seq() == expected,
                expected.no_duplicates(),
                forall|j: int| 0 <= j < expected.len() ==> self.available_models@.contains_key(*(#[trigger] expected[j]).0)
                    && self.available_models@[*expected[j].0] == *expected[j].1,
                n == it.index(),
                forall|i: int, j: int| 0 <= i < j < pool@.len() ==> (#[trigger] pool@[i]).0 != (#[trigger] pool@[j]).0,
                forall|i: int| 0 <= i < pool@.len() ==> exists|j: int| 0 <= j < n && *(#[trigger] expected[j]).0 == (
                #[trigger] pool@[i]).0,
                forall|i: int| 0 <= i < pool@.len() ==> {
                    &&& self.available_models@.contains_key(#[trigger] pool@[i].0)
                    &&& pool@[i].1 == self.available_models@[pool@[i].0]
                    &&& !is_selected(self.selection_states@, pool@[i].0)
                },
                forall|j: int| 0 <= j < n && !is_selected(self.selection_states@, *(#[trigger] expected[j]).0)
                    ==> exists|i: int| 0 <= i < pool@.len() && pool@[i].0 == *expected[j].0,
        {
            let (k, v) = entry;
            let selected = match self.selection_states.get(k) {
                Some(s) => *s,
                None => false,
            };
            let ghost before = pool@;
            proof {
                assert(expected[n] == entry);
                assert forall|i: int| 0 <= i < before.len() implies before[i].0 != *k by {
                    let j = choose|j: int| 0 <= j < n && *(#[trigger] expected[j]).0 == before[i].0;
                    if before[i].0 == *k {
                        assert(*expected[j].1 == *expected[n].1);
                        assert(expected[j] == expected[n]);
                    }
                }
            }
            if !selected {
                pool.push((*k, v.clone()));
            }
            proof {
                assert forall|i: int| 0 <= i < pool@.len() implies exists|j: int| 0 <= j < n + 1 && *(#[trigger] expected[j]).0 == (
                #[trigger] pool@[i]).0 by {
                    if i < before.len() {
                        assert(pool@[i] == before[i]);
                        let j = choose|j: int| 0 <= j < n && *(#[trigger] expected[j]).0 == before[i].0;
                        assert(*expected[j].0 == pool@[i].0);
                    } else {
                        assert(*expected[n].0 == pool@[i].0);
                    }
                }
                assert forall|j: int| 0 <= j < n + 1 && !is_selected(self.selection_states@, *(#[trigger] expected[j]).0)
                    implies exists|i: int| 0 <= i < pool@.len() && pool@[i].0 == *expected[j].0 by {
                    if j < n {
                        let i = choose|i: int| 0 <= i < before.len() && before[i].0 == *expected[j].0;
                        assert(pool@[i] == before[i]);
                    } else {
                        assert(pool@[pool@.len() - 1].0 == *k);
                    }
                }
                n = n + 1;
            }
        }
        assert(n == expected.len());
        assert forall|k: i64| self.available_models@.contains_key(k) && !is_selected(self.selection_states@, k)
            implies exists|i: int| 0 <= i < pool@.len() && #[trigger] pool@[i].0 == k by {
            assert(expected.contains((&k, &self.available_models@[k])));
            let j = choose|j: int| 0 <= j < expected.len() && expected[j] == (&k, &self.available_models@[k]);
            assert(*expected[j].0 == k);
        }
        pool
    }

    /// `r` is what the dialog lists: see `get_filtered_models`.
    pub open spec fn is_filtered_listing(&self, r: Seq<(i64, Model)>) -> bool {
        exists|d: Seq<(i64, Model)>| {
            &&& self.is_disabled_listing(d)
            &&& r == if self.search_query@.len() == 0 {
                self.enabled_entries() + d
            } else {
                (self.enabled_entries() + d).filter(self.hits())
            }
        }
    }

    /// The models to list: the selected ones in their order, then the others
    /// by provider and name, keeping only those that match the search when
    /// there is one.
    pub fn get_filtered_models(&self) -> (r: Vec<(i64, Model)>)
        ensures
            self.is_filtered_listing(r@),
    {
        let mut listed: Vec<(i64, Model)> = Vec::new();
        let mut i: usize = 0;
        while i < self.enabled_model_order.len()
            invariant
                i <= self.enabled_model_order.len(),
                listed@ == self.enabled_model_order@.subrange(0, i as int).filter(
                    enabled_in(self.available_models@, self.selection_states@),
                ).map_values(|id: i64| (id, self.available_models@[id])),
            decreases self.enabled_model_order.len() - i,
        {
            let id = self.enabled_model_order[i];
            let ghost f0 = self.enabled_model_order@.subrange(0, i as int).filter(
                enabled_in(self.available_models@, self.selection_states@),
            );
            assert(self.enabled_model_order@.subrange(0, i + 1) == self.enabled_model_order@.subrange(0, i as int).push(id));
            proof {
                self.enabled_model_order@.subrange(0, i as int).lemma_filter_push(
                    id,
                    enabled_in(self.available_models@, self.selection_states@),
                );
            }
            let selected = match self.selection_states.get(&id) {
                Some(s) => *s,
                None => false,
            };
            if selected {
                match self.available_models.get(&id) {
                    Some(m) => {
                        listed.push((id, m.clone()));
                        assert(listed@ =~= f0.push(id).map_values(|id: i64| (id, self.available_models@[id])));
                    },
                    None => {},
                }
            }
            i += 1;
        }
        assert(self.enabled_model_order@.subrange(0, self.enabled_model_order.len() as int) == self.enabled_model_order@);
        let ghost enabled = listed@;
        let mut pool = self.unselected_entries();
        let ghost all = pool@;
        let mut sorted: Vec<(i64, Model)> = Vec::new();
        while pool.len() > 0
            invariant
                forall|x: (i64, Model)| #[trigger] all.contains(x) <==> (sorted@.contains(x) || pool@.contains(x)),
                forall|i: int, j: int| 0 <= i < j < sorted@.len() ==> !entry_lt(#[trigger] sorted@[j], #[trigger] sorted@[i]),
                forall|i: int, j: int| 0 <= i < sorted@.len() && 0 <= j < pool@.len() ==> !entry_lt(
                    #[trigger] pool@[j],
                    #[trigger] sorted@[i],
                ),
                forall|i: int, j: int| 0 <= i < j < pool@.len() ==> (#[trigger] pool@[i]).0 != (#[trigger] pool@[j]).0,
                forall|i: int, j: int| 0 <= i < j < sorted@.len() ==> (#[trigger] sorted@[i]).0 != (#[trigger] sorted@[j]).0,
                forall|i: int, j: int| 0 <= i < sorted@.len() && 0 <= j < pool@.len() ==> (#[trigger] sorted@[i]).0 != (
                #[trigger] pool@[j]).0,
            decreases pool@.len(),
        {
            let mut best: usize = 0;
            let mut b_chars = chars_of(pool[0].1.model.as_str());
            let mut j: usize = 1;
            proof {
                lemma_entry_lt_irreflexive(pool@[0]);
            }
            while j < pool.len()
                invariant
                    1 <= j <= pool@.len(),
                    best < pool@.len(),
                    b_chars@ == pool@[best as int].1.model@,
                    forall|t: int| 0 <= t < j ==> !entry_lt(#[trigger] pool@[t], pool@[best as int]),
                decreases pool@.len() - j,
            {
                let c_chars = chars_of(pool[j].1.model.as_str());
                let cand = &pool[j];
                let cur = &pool[best];
                let lt = cand.1.provider_id < cur.1.provider_id || (cand.1.provider_id == cur.1.provider_id && (chars_lt(
                    &c_chars,
                    &b_chars,
                ) || (chars_eq(&c_chars, &b_chars) && cand.0 < cur.0)));
                assert(lt == entry_lt(pool@[j as int], pool@[best as int]));
                if lt {
                    let ghost old_best = best as int;
                    assert forall|t: int| 0 <= t < j + 1 implies !entry_lt(#[trigger] pool@[t], pool@[j as int]) by {
                        if t < j && entry_lt(pool@[t], pool@[j as int]) {
                            lemma_entry_lt_transitive(pool@[t], pool@[j as int], pool@[old_best]);
                        }
                        if t == j {
                            assert(!entry_lt(pool@[j as int], pool@[j as int])) by {
                                lemma_entry_lt_irreflexive(pool@[j as int]);
                            }
                        }
                    }
                    best = j;
                    b_chars = c_chars;
                }
                j += 1;
            }
            let ghost before_pool = pool@;
            let ghost before_sorted = sorted@;
            let m = pool.remove(best);
            sorted.push(m);
            assert forall|x: (i64, Model)| #[trigger] all.contains(x) <==> (sorted@.contains(x) || pool@.contains(x)) by {
                if before_pool.contains(x) {
                    let q = choose|q: int| 0 <= q < before_pool.len() && before_pool[q] == x;
                    if q < best {
                        assert(pool@[q] == x);
                    } else if q > best {
                        assert(pool@[q - 1] == x);
                    } else {
                        assert(sorted@[sorted@.len() - 1] == x);
                    }
                }
                if before_sorted.contains(x) {
                    let q = choose|q: int| 0 <= q < before_sorted.len() && before_sorted[q] == x;
                    assert(sorted@[q] == x);
                }
                if sorted@.contains(x) {
                    let q = choose|q: int| 0 <= q < sorted@.len() && sorted@[q] == x;
                    if q < before_sorted.len() {
                        assert(before_sorted[q] == x);
                    } else {
                        assert(before_pool[best as int] == x);
                    }
                }
                if pool@.contains(x) {
                    let q = choose|q: int| 0 <= q < pool@.len() && pool@[q] == x;
                    if q < best {
                        assert(before_pool[q] == x);
                    } else {
                        assert(before_pool[q + 1] == x);
                    }
                }
            }
            assert forall|a: int, b: int| 0 <= a < b < sorted@.len() implies !entry_lt(#[trigger] sorted@[b], #[trigger] sorted@[a]) by {
                if b == sorted@.len() - 1 {
                    assert(sorted@[b] == before_pool[best as int]);
                    assert(sorted@[a] == before_sorted[a]);
                } else {
                    assert(sorted@[b] == before_sorted[b]);
                    assert(sorted@[a] == before_sorted[a]);
                }
            }
            assert forall|a: int, b: int| 0 <= a < b < pool@.len() implies (#[trigger] pool@[a]).0 != (#[trigger] pool@[b]).0 by {
                let pa = if a < best { a } else { a + 1 };
                let pb = if b < best { b } else { b + 1 };
                assert(pool@[a] == before_pool[pa]);
                assert(pool@[b] == before_pool[pb]);
            }
            assert forall|a: int, b: int| 0 <= a < b < sorted@.len() implies (#[trigger] sorted@[a]).0 != (#[trigger] sorted@[b]).0 by {
                assert(sorted@[a] == before_sorted[a]);
                if b == sorted@.len() - 1 {
                    assert(sorted@[b] == before_pool[best as int]);
                } else {
                    assert(sorted@[b] == before_sorted[b]);
                }
            }
            assert forall|a: int, b: int| 0 <= a < sorted@.len() && 0 <= b < pool@.len() implies (#[trigger] sorted@[a]).0 != (
            #[trigger] pool@[b]).0 by {
                let pb = if b < best { b } else { b + 1 };
                assert(pool@[b] == before_pool[pb]);
                if a < before_sorted.len() {
                    assert(sorted@[a] == before_sorted[a]);
                } else {
                    assert(sorted@[a] == before_pool[best as int]);
                }
            }
            assert forall|a: int, b: int| 0 <= a < sorted@.len() && 0 <= b < pool@.len() implies !entry_lt(
                #[trigger] pool@[b],
                #[trigger] sorted@[a],
            ) by {
                let pb = if b < best { b } else { b + 1 };
                assert(pool@[b] == before_pool[pb]);
                if a < before_sorted.len() {
                    assert(sorted@[a] == before_sorted[a]);
                } else {
                    assert(sorted@[a] == before_pool[best as int]);
                }
            }
        }
        let ghost d = sorted@;
        assert(self.is_disabled_listing(d)) by {
            assert forall|i: int| 0 <= i < d.len() implies {
                &&& self.available_models@.contains_key(#[trigger] d[i].0)
                &&& d[i].1 == self.available_models@[d[i].0]
                &&& !is_selected(self.selection_states@, d[i].0)
            } by {
                assert(sorted@.contains(d[i]));
                assert(all.contains(d[i]));
                let q = choose|q: int| 0 <= q < all.len() && all[q] == d[i];
                assert(all[q].0 == d[i].0);
            }
            assert forall|k: i64| self.available_models@.contains_key(k) && !is_selected(self.selection_states@, k)
                implies exists|i: int| 0 <= i < d.len() && #[trigger] d[i].0 == k by {
                let q = choose|q: int| 0 <= q < all.len() && #[trigger] all[q].0 == k;
                assert(all.contains(all[q]));
                assert(sorted@.contains(all[q]));
                let p = choose|p: int| 0 <= p < d.len() && d[p] == all[q];
                assert(d[p].0 == k);
            }
        }
        listed.append(&mut sorted);
        assert(listed@ == enabled + d);
        if self.search_query.as_str().unicode_len() == 0 {
            assert(self.is_filtered_listing(listed@));
            return listed;
        }
        let q = chars_of(lowercase(self.search_query.as_str()).as_str());
        let mut out: Vec<(i64, Model)> = Vec::new();
        let mut t: usize = 0;
        while t < listed.len()
            invariant
                t <= listed.len(),
                q@ == lower_of(self.search_query@),
                out@ == listed@.subrange(0, t as int).filter(self.hits()),
            decreases listed.len() - t,
        {
            let e = &listed[t];
            assert(listed@.subrange(0, t + 1) == listed@.subrange(0, t as int).push(*e));
            proof {
                listed@.subrange(0, t as int).lemma_filter_push(*e, self.hits());
            }
            let name = chars_of(lowercase(e.1.model.as_str()).as_str());
            let pname = self.get_provider_name(e.1.provider_id);
            let pchars = chars_of(lowercase(pname.as_str()).as_str());
            if chars_contain(&name, &q) || chars_contain(&pchars, &q) {
                out.push((e.0, e.1.clone()));
            }
            t += 1;
        }
        assert(listed@.subrange(0, listed.len() as int) == listed@);
        assert(self.is_filtered_listing(out@));
        out
    }

    /// The parts of the dialog that no key changes.
    pub open spec fn keeps_data(&self, next: &Self) -> bool {
        &&& next.mode == self.mode
        &&& next.enabled_model_order == self.enabled_model_order
        &&& next.available_models == self.available_models
        &&& next.provider_names == self.provider_names
        &&& next.last_key == self.last_key
    }

    /// What a key does while the search text is being typed.
    pub open spec fn search_step(&self, next: &Self, key: ModalKey, plain: bool) -> bool {
        &&& self.keeps_data(next)
        &&& next.selection_states == self.selection_states
        &&& next.numeric_prefix == self.numeric_prefix
        &&& next.visual_start_index == self.visual_start_index
        &&& match key {
            ModalKey::Char(c) => if plain {
                next.search_query@ == self.search_query@.push(c) && next.selection_index == 0
                    && next.dialog_mode == self.dialog_mode
            } else {
                next.search_query@ == self.search_query@ && next.selection_index == self.selection_index
                    && next.dialog_mode == self.dialog_mode
            },
            ModalKey::Backspace => next.search_query@ == (if self.search_query@.len() > 0 {
                self.search_query@.drop_last()
            } else {
                self.search_query@
            }) && next.selection_index == 0 && next.dialog_mode == self.dialog_mode,
            ModalKey::Enter => next.search_query@ == self.search_query@ && next.selection_index == self.selection_index
                && next.dialog_mode == ModelDialogMode::Normal,
            ModalKey::Esc => next.search_query@.len() == 0 && next.selection_index == 0 && next.dialog_mode
                == ModelDialogMode::Normal,
            ModalKey::Other => next.search_query@ == self.search_query@ && next.selection_index == self.selection_index
                && next.dialog_mode == self.dialog_mode,
        }
    }

    /// Types into the search text.
    fn handle_search_input(&mut self, key: ModalKey, plain: bool)
        ensures
            old(self).search_step(final(self), key, plain),
    {
        match key {
            ModalKey::Char(c) => {
                if plain {
                    let piece = char_text(c);
                    self.search_query.append(piece.as_str());
                    assert(self.search_query@ =~= old(self).search_query@.push(c));
                    self.selection_index = 0;
                }
            },
            ModalKey::Backspace => {
                let chars = chars_of(self.search_query.as_str());
                if chars.len() > 0 {
                    self.search_query = text_of_chars(chars.as_slice(), 0, chars.len() - 1);
                    assert(self.search_query@ =~= old(self).search_query@.drop_last());
                }
                self.selection_index = 0;
            },
            ModalKey::Enter => {
                self.dialog_mode = ModelDialogMode::Normal;
            },
            ModalKey::Esc => {
                self.search_query = String::new();
                self.selection_index = 0;
                self.dialog_mode = ModelDialogMode::Normal;
            },
            ModalKey::Other => {},
        }
    }

    /// What a key does in normal mode, given what the dialog lists (`listed`).
    pub open spec fn normal_step(&self, next: &Self, key: ModalKey, plain: bool, listed: Seq<(i64, Model)>, r: ModalResult) -> bool {
        let n = listed.len() as int;
        let count: usize = match self.numeric_prefix {
            Some(p) => p,
            None => 1,
        };
        &&& self.keeps_data(next)
        &&& if plain && key is Char && is_digit(key->Char_0) {
            &&& r is Continue
            &&& next.numeric_prefix == Some(prefix_after(self.numeric_prefix, key->Char_0))
            &&& next.selection_index == self.selection_index && next.search_query@ == self.search_query@
            &&& next.selection_states == self.selection_states && next.dialog_mode == self.dialog_mode
            &&& next.visual_start_index == self.visual_start_index
        } else if key == ModalKey::Esc && self.search_query@.len() == 0 {
            &&& r matches ModalResult::Apply(ids) && ids@ == self.enabled_model_order@.filter(selected_in(self.selection_states@))
            &&& next.numeric_prefix is None && next.selection_index == self.selection_index
            &&& next.search_query@ == self.search_query@ && next.selection_states == self.selection_states
            &&& next.dialog_mode == self.dialog_mode && next.visual_start_index == self.visual_start_index
        } else {
            &&& r is Continue
            &&& next.numeric_prefix == (if key == ModalKey::Esc { self.numeric_prefix } else { None })
            &&& next.selection_index == (if key == ModalKey::Char('j') {
                cursor_down(self.selection_index, count, n)
            } else if key == ModalKey::Char('k') {
                cursor_up(self.selection_index, count, n)
            } else if (key == ModalKey::Esc || is_clear_key(key)) && self.search_query@.len() > 0 {
                0
            } else {
                self.selection_index
            })
            &&& next.search_query@ == (if (key == ModalKey::Esc || is_clear_key(key)) && self.search_query@.len() > 0 {
                Seq::empty()
            } else {
                self.search_query@
            })
            &&& next.selection_states@ == (if is_toggle_key(key) && self.selection_index < n {
                self.selection_states@.insert(
                    listed[self.selection_index as int].0,
                    !is_selected(self.selection_states@, listed[self.selection_index as int].0),
                )
            } else {
                self.selection_states@
            })
            &&& next.dialog_mode == (if key == ModalKey::Char('v') {
                ModelDialogMode::Visual
            } else if key == ModalKey::Char('/') {
                ModelDialogMode::Search
            } else {
                self.dialog_mode
            })
            &&& next.visual_start_index == (if key == ModalKey::Char('v') {
                Some(self.selection_index)
            } else {
                self.visual_start_index
            })
        }
    }

    /// Navigates, toggles and switches modes; Esc with no search text closes
    /// the dialog and applies the selected models in their order.
    fn handle_normal_mode(&mut self, key: ModalKey, plain: bool) -> (r: ModalResult)
        ensures
            exists|listed: Seq<(i64, Model)>| old(self).is_filtered_listing(listed) && old(self).normal_step(
                final(self),
                key,
                plain,
                listed,
                r,
            ),
    {
        let filtered = self.get_filtered_models();
        let ghost listed = filtered@;
        if plain {
            match key {
                ModalKey::Char(c) => {
                    if c >= '0' && c <= '9' {
                        let digit = (c as u32 - '0' as u32) as usize;
                        let base: usize = match self.numeric_prefix {
                            Some(p) => p,
                            None => 0,
                        };
                        let next = if base > (usize::MAX - digit) / 10 {
                            usize::MAX
                        } else {
                            base * 10 + digit
                        };
                        self.numeric_prefix = Some(next);
                        assert(prefix_after(old(self).numeric_prefix, c) == next);
                        assert(old(self).normal_step(self, key, plain, listed, ModalResult::Continue));
                        return ModalResult::Continue;
                    }
                },
                _ => {},
            }
        }
        let count: usize = match self.numeric_prefix {
            Some(p) => p,
            None => 1,
        };
        let n = filtered.len();
        let mut result = ModalResult::Continue;
        match key {
            ModalKey::Esc => {
                if self.search_query.as_str().unicode_len() > 0 {
                    self.search_query = String::new();
                    self.selection_index = 0;
                } else {
                    let selected = self.get_selected_model_ids();
                    self.numeric_prefix = None;
                    result = ModalResult::Apply(selected);
                }
            },
            ModalKey::Char('j') => {
                if n > 0 {
                    let moved = if self.selection_index > n - 1 || count > n - 1 - self.selection_index {
                        n - 1
                    } else {
                        self.selection_index + count
                    };
                    self.selection_index = moved;
                }
                self.numeric_prefix = None;
            },
            ModalKey::Char('k') => {
                if n > 0 {
                    self.selection_index = if self.selection_index >= count { self.selection_index - count } else { 0 };
                }
                self.numeric_prefix = None;
            },
            ModalKey::Char('l') | ModalKey::Char('h') | ModalKey::Char(' ') | ModalKey::Enter => {
                if self.selection_index < n {
                    let id = filtered[self.selection_index].0;
                    let current = match self.selection_states.get(&id) {
                        Some(v) => *v,
                        None => false,
                    };
                    self.selection_states.insert(id, !current);
                }
                self.numeric_prefix = None;
            },
            ModalKey::Char('v') => {
                self.dialog_mode = ModelDialogMode::Visual;
                self.visual_start_index = Some(self.selection_index);
                self.numeric_prefix = None;
            },
            ModalKey::Char('/') => {
                self.dialog_mode = ModelDialogMode::Search;
                self.numeric_prefix = None;
            },
            ModalKey::Char('x') | ModalKey::Char('q') | ModalKey::Char('c') | ModalKey::Char('d') => {
                if self.search_query.as_str().unicode_len() > 0 {
                    self.search_query = String::new();
                    self.selection_index = 0;
                }
                self.numeric_prefix = None;
            },
            _ => {
                self.numeric_prefix = None;
            },
        }
        assert(old(self).normal_step(self, key, plain, listed, result));
        result
    }

    /// What a key does in visual mode, given what the dialog lists (`listed`).
    pub open spec fn visual_step(&self, next: &Self, key: ModalKey, listed: Seq<(i64, Model)>) -> bool {
        let n = listed.len() as int;
        &&& self.keeps_data(next)
        &&& next.search_query == self.search_query
        &&& next.numeric_prefix == self.numeric_prefix
        &&& next.selection_index == (if key == ModalKey::Char('j') {
            cursor_down(self.selection_index, 1, n)
        } else if key == ModalKey::Char('k') {
            cursor_up(self.selection_index, 1, n)
        } else {
            self.selection_index
        })
        &&& (if key == ModalKey::Esc || key == ModalKey::Char('v') {
            next.dialog_mode == ModelDialogMode::Normal && next.visual_start_index is None
        } else {
            next.dialog_mode == self.dialog_mode && next.visual_start_index == self.visual_start_index
        })
        &&& (if is_toggle_key(key) && self.visual_start_index is Some {
            let s = self.visual_start_index->Some_0;
            toggled_range(
                self.selection_states@,
                next.selection_states@,
                listed,
                range_low(s, self.selection_index),
                range_high(s, self.selection_index),
                n,
            )
        } else {
            next.selection_states == self.selection_states
        })
    }

    /// Moves the cursor and toggles every model between the cursor and where
    /// the visual range started: all of them off when all are on, otherwise
    /// all on.
    fn handle_visual_mode(&mut self, key: ModalKey)
        ensures
            exists|listed: Seq<(i64, Model)>| old(self).is_filtered_listing(listed) && old(self).visual_step(
                final(self),
                key,
                listed,
            ),
    {
        let filtered = self.get_filtered_models();
        let ghost listed = filtered@;
        let n = filtered.len();
        match key {
            ModalKey::Char('j') => {
                if n > 0 {
                    self.selection_index = if self.selection_index >= n - 1 { n - 1 } else { self.selection_index + 1 };
                }
            },
            ModalKey::Char('k') => {
                if n > 0 && self.selection_index > 0 {
                    self.selection_index = self.selection_index - 1;
                }
            },
            ModalKey::Char('l') | ModalKey::Char('h') | ModalKey::Char(' ') | ModalKey::Enter => {
                match self.visual_start_index {
                    Some(s) => {
                        let lo = if s < self.selection_index { s } else { self.selection_index };
                        let hi = if s < self.selection_index { self.selection_index } else { s };
                        assert(lo == range_low(s, self.selection_index) && hi == range_high(s, self.selection_index));
                        let mut states: HashMap<i64, bool> = HashMap::new();
                        std::mem::swap(&mut states, &mut self.selection_states);
                        let ghost start = states@;
                        let mut all_on = true;
                        let mut i: usize = lo;
                        while i <= hi && i < n
                            invariant
                                lo <= i,
                                n == listed.len(),
                                filtered@ == listed,
                                states@ == start,
                                all_on == (forall|j: int| lo <= j < i && #[trigger] in_vrange(lo as int, hi as int, n as int, j)
                                    ==> is_selected(start, listed[j].0)),
                            decreases n - i,
                        {
                            assert(in_vrange(lo as int, hi as int, n as int, i as int));
                            let on = match states.get(&filtered[i].0) {
                                Some(v) => *v,
                                None => false,
                            };
                            all_on = all_on && on;
                            i += 1;
                        }
                        assert(all_on == all_selected_in_range(start, listed, lo as int, hi as int, n as int));
                        let new_state = !all_on;
                        let mut t: usize = lo;
                        while t <= hi && t < n
                            invariant
                                lo <= t,
                                n == listed.len(),
                                filtered@ == listed,
                                forall|j: int| lo <= j < t && #[trigger] in_vrange(lo as int, hi as int, n as int, j)
                                    ==> states@.contains_key(listed[j].0) && states@[listed[j].0] == new_state,
                                forall|k: i64| #![trigger listed_in_range(listed, lo as int, hi as int, n as int, t as int, k)]
                                    !listed_in_range(listed, lo as int, hi as int, n as int, t as int, k) ==> (
                                    states@.contains_key(k) == start.contains_key(k)
                                    && (start.contains_key(k) ==> states@[k] == start[k])),
                            decreases n - t,
                        {
                            assert(in_vrange(lo as int, hi as int, n as int, t as int));
                            let id = filtered[t].0;
                            let ghost pre = states@;
                            states.insert(id, new_state);
                            assert forall|k: i64| !listed_in_range(listed, lo as int, hi as int, n as int, t + 1, k) implies (
                                #[trigger] states@.contains_key(k) == start.contains_key(k)
                                && (start.contains_key(k) ==> states@[k] == start[k])) by {
                                assert(listed[t as int].0 != k);
                                assert(!listed_in_range(listed, lo as int, hi as int, n as int, t as int, k));
                                assert(pre.contains_key(k) == start.contains_key(k) && (start.contains_key(k) ==> pre[k] == start[k]));
                            }
                            t += 1;
                        }
                        assert forall|k: i64| !listed_in_range(listed, lo as int, hi as int, n as int, n as int, k) implies (
                            #[trigger] states@.contains_key(k) == start.contains_key(k)
                            && (start.contains_key(k) ==> states@[k] == start[k])) by {
                            if !listed_in_range(listed, lo as int, hi as int, n as int, t as int, k) {
                            } else {
                                let j = choose|j: int| lo <= j < t && in_vrange(lo as int, hi as int, n as int, j) && #[trigger] listed[j].0 == k;
                                assert(lo <= j < n && in_vrange(lo as int, hi as int, n as int, j) && listed[j].0 == k);
                            }
                        }
                        assert forall|j: int| #[trigger] in_vrange(lo as int, hi as int, n as int, j)
                            implies states@.contains_key(listed[j].0) && states@[listed[j].0] == new_state by {
                            assert(lo <= j < t);
                        }
                        assert(toggled_range(start, states@, listed, lo as int, hi as int, n as int));
                        std::mem::swap(&mut states, &mut self.selection_states);
                        assert(start == old(self).selection_states@);
                        assert(old(self).visual_step(self, key, listed));
                    },
                    None => {},
                }
            },
            ModalKey::Esc | ModalKey::Char('v') => {
                self.dialog_mode = ModelDialogMode::Normal;
                self.visual_start_index = None;
            },
            _ => {},
        }
        assert(old(self).is_filtered_listing(listed));
    }

    /// Handles one key press; `plain` tells that no modifier key was held.
    pub fn handle_key(&mut self, key: ModalKey, plain: bool) -> (r: ModalResult)
        ensures
            old(self).dialog_mode == ModelDialogMode::Search ==> r is Continue && old(self).search_step(final(self), key, plain),
            old(self).dialog_mode == ModelDialogMode::Normal ==> exists|listed: Seq<(i64, Model)>|
                old(self).is_filtered_listing(listed) && old(self).normal_step(final(self), key, plain, listed, r),
            old(self).dialog_mode == ModelDialogMode::Visual ==> r is Continue && exists|listed: Seq<(i64, Model)>|
                old(self).is_filtered_listing(listed) && old(self).visual_step(final(self), key, listed),
    {
        match self.dialog_mode {
            ModelDialogMode::Search => {
                self.handle_search_input(key, plain);
                ModalResult::Continue
            },
            ModelDialogMode::Normal => self.handle_normal_mode(key, plain),
            ModelDialogMode::Visual => {
                self.handle_visual_mode(key);
                ModalResult::Continue
            },
        }
    }
}

} // verus!
