//! The identity of a record across plugins: an object index and the name
//! of the plugin that first defined the record.

use std::cmp::Ordering;
use std::hash::{Hash, Hasher};
use unicase::UniCase;
use vstd::prelude::*;
use vstd::std_specs::cmp::{PartialEqSpecImpl, PartialOrdSpecImpl};
use vstd::string::StringExecFns;

verus! {

/// The text that `UniCase::to_folded_case` of the `unicase` crate makes of
/// `name`: each character replaced by its Unicode case folding.
pub uninterp spec fn folded_case(name: Seq<char>) -> Seq<char>;

/// Whether `left` comes before `right` in the order of dictionaries, the
/// characters taken by their code points: at the first place where they
/// differ `left` has the smaller character, or `left` ends there and
/// `right` does not.
pub open spec fn text_precedes(left: Seq<char>, right: Seq<char>) -> bool
    decreases left.len(),
{
    if right.len() == 0 {
        false
    } else if left.len() == 0 {
        true
    } else if left[0] != right[0] {
        (left[0] as u32) < (right[0] as u32)
    } else {
        text_precedes(left.drop_first(), right.drop_first())
    }
}

/// Something that names a plugin.
pub trait PluginName {
    /// The name.
    spec fn name_view(&self) -> Seq<char>;

    /// The name.
    fn name(&self) -> (name: &str)
        ensures
            name@ == self.name_view(),
    ;
}

impl PluginName for String {
    open spec fn name_view(&self) -> Seq<char> {
        self@
    }

    fn name(&self) -> (name: &str) {
        self.as_str()
    }
}

impl<'a> PluginName for &'a str {
    open spec fn name_view(&self) -> Seq<char> {
        self@
    }

    fn name(&self) -> (name: &str) {
        *self
    }
}

/// The names that `masters` holds, in their order.
pub open spec fn name_views<T: PluginName>(masters: Seq<T>) -> Seq<Seq<char>> {
    Seq::new(masters.len(), |i: int| masters[i].name_view())
}

/// The identity of a record across plugins.
#[derive(Clone, Debug, Default)]
pub struct FormId {
    /// The record's number within the plugin that defined it, below 2^24.
    pub object_index: u32,
    /// The name of the plugin that defined the record.
    pub plugin_name: String,
}

/// What a form id holds.
pub struct FormIdView {
    /// The record's number within the plugin that defined it.
    pub object_index: u32,
    /// The name of the plugin that defined the record.
    pub plugin_name: Seq<char>,
}

impl View for FormId {
    type V = FormIdView;

    open spec fn view(&self) -> FormIdView {
        FormIdView { object_index: self.object_index, plugin_name: self.plugin_name@ }
    }
}

/// The part of a raw form id that numbers the record: its low 24 bits.
pub open spec fn object_index_of(raw_form_id: u32) -> u32 {
    raw_form_id & 0xFF_FFFF
}

/// The part of a raw form id that says which plugin defined the record:
/// its high 8 bits, an index into the masters of the plugin that holds the
/// record.
pub open spec fn mod_index_of(raw_form_id: u32) -> int {
    (raw_form_id >> 24) as int
}

/// The form id that a raw form id stands for in a plugin of the given name
/// and masters. The plugin that defined the record is the master at the
/// raw id's mod index, and the plugin itself where it has no such master.
pub open spec fn resolved_form_id(
    parent_plugin_name: Seq<char>,
    masters: Seq<Seq<char>>,
    raw_form_id: u32,
) -> FormIdView {
    FormIdView {
        object_index: object_index_of(raw_form_id),
        plugin_name: if mod_index_of(raw_form_id) < masters.len() {
            masters[mod_index_of(raw_form_id)]
        } else {
            parent_plugin_name
        },
    }
}

impl FormIdView {
    /// Whether two form ids name the same record: the object indices are
    /// equal, and the plugin names are equal when case is ignored.
    pub open spec fn same_as(self, other: FormIdView) -> bool {
        self.object_index == other.object_index && folded_case(self.plugin_name) == folded_case(
            other.plugin_name,
        )
    }

    /// Whether this form id comes before the other: it has the smaller
    /// object index, or the same and its plugin name comes first when case
    /// is ignored.
    pub open spec fn precedes(self, other: FormIdView) -> bool {
        self.object_index < other.object_index || (self.object_index == other.object_index
            && text_precedes(folded_case(self.plugin_name), folded_case(other.plugin_name)))
    }

    /// Whether this form id does not come after the other.
    pub open spec fn at_most(self, other: FormIdView) -> bool {
        !other.precedes(self)
    }

    /// What a form id is hashed by: the object index and the plugin name
    /// with its case folded.
    pub open spec fn hash_key(self) -> (u32, Seq<char>) {
        (self.object_index, folded_case(self.plugin_name))
    }
}

/// No text comes before itself.
pub proof fn lemma_text_precedes_irreflexive(text: Seq<char>)
    ensures
        !text_precedes(text, text),
    decreases text.len(),
{
    if text.len() > 0 {
        lemma_text_precedes_irreflexive(text.drop_first());
    }
}

/// What comes before a text that comes before a third comes before the
/// third.
pub proof fn lemma_text_precedes_transitive(first: Seq<char>, second: Seq<char>, third: Seq<char>)
    requires
        text_precedes(first, second),
        text_precedes(second, third),
    ensures
        text_precedes(first, third),
    decreases first.len(),
{
    if first.len() > 0 && first[0] == second[0] && second[0] == third[0] {
        lemma_text_precedes_transitive(
            first.drop_first(),
            second.drop_first(),
            third.drop_first(),
        );
    }
}

/// Of two texts one comes before the other, or they are the same text.
pub proof fn lemma_text_precedes_total(left: Seq<char>, right: Seq<char>)
    ensures
        text_precedes(left, right) || left == right || text_precedes(right, left),
    decreases left.len(),
{
    if left.len() == 0 || right.len() == 0 {
        assert(left.len() == 0 && right.len() == 0 ==> left =~= right);
    } else if left[0] == right[0] {
        lemma_text_precedes_total(left.drop_first(), right.drop_first());
        if left.drop_first() == right.drop_first() {
            assert(left =~= seq![left[0]] + left.drop_first());
            assert(right =~= seq![right[0]] + right.drop_first());
        }
    } else {
        vstd::utf8::char_u32_cast(left[0], left[0] as u32);
        vstd::utf8::char_u32_cast(right[0], right[0] as u32);
    }
}

/// The order of form ids is strict and total up to the equality of form
/// ids: of two form ids exactly one of three holds, the first comes
/// before the second, they are equal, or the second comes before the
/// first.
pub proof fn lemma_form_id_order_trichotomy(left: FormIdView, right: FormIdView)
    ensures
        left.precedes(right) || left.same_as(right) || right.precedes(left),
        !(left.precedes(right) && left.same_as(right)),
        !(right.precedes(left) && left.same_as(right)),
        !(left.precedes(right) && right.precedes(left)),
{
    let l = folded_case(left.plugin_name);
    let r = folded_case(right.plugin_name);
    lemma_text_precedes_total(l, r);
    lemma_text_precedes_irreflexive(l);
    if text_precedes(l, r) && text_precedes(r, l) {
        lemma_text_precedes_transitive(l, r, l);
    }
}

/// The order of form ids is transitive.
pub proof fn lemma_form_id_order_transitive(
    first: FormIdView,
    second: FormIdView,
    third: FormIdView,
)
    requires
        first.precedes(second),
        second.precedes(third),
    ensures
        first.precedes(third),
{
    if first.object_index == second.object_index && second.object_index == third.object_index {
        lemma_text_precedes_transitive(
            folded_case(first.plugin_name),
            folded_case(second.plugin_name),
            folded_case(third.plugin_name),
        );
    }
}

/// Equal form ids have the same place in the order: what one of them
/// precedes the other precedes, and what precedes one precedes the other.
pub proof fn lemma_form_id_order_respects_equality(
    left: FormIdView,
    right: FormIdView,
    other: FormIdView,
)
    requires
        left.same_as(right),
    ensures
        left.precedes(other) == right.precedes(other),
        other.precedes(left) == other.precedes(right),
        left.same_as(other) == right.same_as(other),
{
}

/// Not coming after is transitive.
pub proof fn lemma_form_id_at_most_transitive(
    first: FormIdView,
    second: FormIdView,
    third: FormIdView,
)
    requires
        first.at_most(second),
        second.at_most(third),
    ensures
        first.at_most(third),
{
    if third.precedes(first) {
        lemma_form_id_order_trichotomy(first, second);
        if first.precedes(second) {
            lemma_form_id_order_transitive(third, first, second);
        } else {
            lemma_form_id_order_respects_equality(first, second, third);
        }
    }
}

/// Equal form ids are hashed by the same key, and form ids that are hashed
/// by the same key are equal.
pub proof fn lemma_equal_form_ids_hash_alike(left: FormIdView, right: FormIdView)
    ensures
        left.same_as(right) <==> left.hash_key() == right.hash_key(),
{
}

/// Equality of form ids is reflexive, symmetric and transitive.
pub proof fn lemma_form_id_equality(first: FormIdView, second: FormIdView, third: FormIdView)
    ensures
        first.same_as(first),
        first.same_as(second) ==> second.same_as(first),
        first.same_as(second) && second.same_as(third) ==> first.same_as(third),
{
}

/// Calls `unicase::eq`, which compares two strings after folding the case
/// of each: it holds where the folded texts are the same.
#[verifier::external_body]
fn unicase_eq(left: &str, right: &str) -> (equal: bool)
    ensures
        equal == (folded_case(left@) == folded_case(right@)),
{
    unicase::eq(left, right)
}

/// Calls `Ord::cmp` of `unicase::UniCase` on the two strings, which
/// compares what the case folding makes of them, character by character.
#[verifier::external_body]
fn unicase_order(left: &str, right: &str) -> (order: Ordering)
    ensures
        order == Ordering::Less <==> text_precedes(folded_case(left@), folded_case(right@)),
        order == Ordering::Equal <==> folded_case(left@) == folded_case(right@),
        order == Ordering::Greater <==> text_precedes(folded_case(right@), folded_case(left@)),
{
    UniCase::new(left).cmp(&UniCase::new(right))
}

/// Calls `UniCase::to_folded_case` of the `unicase` crate, which replaces
/// each character by its Unicode case folding.
#[verifier::external_body]
fn unicase_folded(name: &str) -> (folded: String)
    ensures
        folded@ == folded_case(name@),
{
    UniCase::new(name).to_folded_case()
}

/// Calls `Hash::hash` of std for a `u32`, which feeds the number to the
/// hasher.
#[verifier::external_body]
fn hash_number<H: Hasher>(number: u32, state: &mut H) {
    number.hash(state)
}

/// Calls `Hash::hash` of std for a `String`, which feeds the text to the
/// hasher.
#[verifier::external_body]
fn hash_text<H: Hasher>(text: &String, state: &mut H) {
    text.hash(state)
}

impl FormId {
    /// Resolves a raw form id that stands in the plugin of the given name
    /// and masters. The object index is the raw id's low 24 bits. The
    /// plugin name is the master at the index that the high 8 bits give,
    /// and the plugin's own name where it has no master at that index.
    pub fn new<T: PluginName>(parent_plugin_name: &str, masters: &[T], raw_form_id: u32) -> (form_id:
        FormId)
        ensures
            form_id@ == resolved_form_id(parent_plugin_name@, name_views(masters@), raw_form_id),
            form_id.object_index == raw_form_id & 0xFF_FFFF,
            form_id.object_index <= 0xFF_FFFF,
            (raw_form_id >> 24) < masters@.len() ==> form_id.plugin_name@ == masters@[(raw_form_id
                >> 24) as int].name_view(),
            (raw_form_id >> 24) >= masters@.len() ==> form_id.plugin_name@ == parent_plugin_name@,
    {
        assert(raw_form_id & 0xFF_FFFF <= 0xFF_FFFF) by (bit_vector);
        let mod_index: usize = (raw_form_id >> 24) as usize;
        let plugin_name: &str = if mod_index < masters.len() {
            masters[mod_index].name()
        } else {
            parent_plugin_name
        };
        FormId { object_index: raw_form_id & 0xFF_FFFF, plugin_name: String::from_str(plugin_name) }
    }

    /// The place of this form id relative to another: by object index
    /// first, then by plugin name with case ignored.
    pub fn cmp(&self, other: &FormId) -> (order: Ordering)
        ensures
            order == Ordering::Less <==> self@.precedes(other@),
            order == Ordering::Equal <==> self@.same_as(other@),
            order == Ordering::Greater <==> other@.precedes(self@),
    {
        if self.object_index < other.object_index {
            Ordering::Less
        } else if self.object_index > other.object_index {
            Ordering::Greater
        } else {
            unicase_order(self.plugin_name.as_str(), other.plugin_name.as_str())
        }
    }

    /// Whether this form id comes before the other.
    pub fn precedes(&self, other: &FormId) -> (before: bool)
        ensures
            before == self@.precedes(other@),
    {
        match self.cmp(other) {
            Ordering::Less => true,
            _ => false,
        }
    }

    /// What this form id is hashed by: the object index, and the plugin
    /// name with its case folded.
    pub fn hash_key(&self) -> (key: (u32, String))
        ensures
            key.0 == self@.hash_key().0,
            key.1@ == self@.hash_key().1,
    {
        (self.object_index, unicase_folded(self.plugin_name.as_str()))
    }
}

impl PartialEq for FormId {
    fn eq(&self, other: &FormId) -> (equal: bool) {
        self.object_index == other.object_index && unicase_eq(
            self.plugin_name.as_str(),
            other.plugin_name.as_str(),
        )
    }
}

impl PartialEqSpecImpl for FormId {
    open spec fn obeys_eq_spec() -> bool {
        true
    }

    open spec fn eq_spec(&self, other: &FormId) -> bool {
        self@.same_as(other@)
    }
}

impl Eq for FormId {

}

impl PartialOrd for FormId {
    fn partial_cmp(&self, other: &FormId) -> (order: Option<Ordering>) {
        proof {
            lemma_form_id_order_trichotomy(self@, other@);
        }
        Some(self.cmp(other))
    }
}

impl PartialOrdSpecImpl for FormId {
    open spec fn obeys_partial_cmp_spec() -> bool {
        true
    }

    open spec fn partial_cmp_spec(&self, other: &FormId) -> Option<Ordering> {
        if self@.precedes(other@) {
            Some(Ordering::Less)
        } else if self@.same_as(other@) {
            Some(Ordering::Equal)
        } else {
            Some(Ordering::Greater)
        }
    }
}

impl Hash for FormId {
    fn hash<H: Hasher>(&self, state: &mut H) {
        let key = self.hash_key();
        hash_number(key.0, state);
        hash_text(&key.1, state);
    }
}

} // verus!
