//! The lookups that every record mapper is built from: a child element by
//! its tag, the text of such a child, an attribute by its name, and the
//! same with the text read as a number.

use crate::date::{spec_parse_date, Date, DateView};
use crate::error::{result_view, Error, ErrorView};
use crate::text::{
    parse_octal, parse_u32, parse_u64, spec_parse_octal, spec_parse_u32, spec_parse_u64, str_eq,
};
use crate::xml::{lemma_view_parts, AttributeView, NodeKind, XmlNode, XmlTree};
use vstd::prelude::*;

verus! {

/// The test "is an element of tag `tag`", as a function on nodes.
pub open spec fn named(tag: Seq<char>) -> spec_fn(XmlTree) -> bool {
    |c: XmlTree| c.is_named(tag)
}

/// The test "has the name `name`", as a function on attributes.
pub open spec fn attribute_named(name: Seq<char>) -> spec_fn(AttributeView) -> bool {
    |a: AttributeView| a.name == name
}

/// The views of a sequence of values, in the same order.
pub open spec fn views<T: View>(items: Seq<T>) -> Seq<T::V> {
    Seq::new(items.len(), |i: int| items[i]@)
}

/// The text of a node, as a function on nodes.
pub open spec fn text_of() -> spec_fn(XmlTree) -> Option<Seq<char>> {
    |c: XmlTree| c.text
}

/// A value read from the text `raw` found under `tag`: the value where
/// there is one, else the error that carries the tag and the text.
pub open spec fn typed<T>(tag: Seq<char>, raw: Seq<char>, parsed: Option<T>) -> Result<
    T,
    ErrorView,
> {
    match parsed {
        Some(v) => Ok(v),
        None => Err(ErrorView::InvalidValue(tag, raw)),
    }
}

/// The test "is an element", as a function on nodes.
pub open spec fn element() -> spec_fn(XmlTree) -> bool {
    |c: XmlTree| c.kind == NodeKind::Element
}

/// A plural section that is all or nothing: every value where every entry
/// has one, else the error of the first entry that has none.
pub open spec fn collect<T>(results: Seq<Result<T, ErrorView>>) -> Result<Seq<T>, ErrorView>
    decreases results.len(),
{
    if results.len() == 0 {
        Ok(Seq::empty())
    } else {
        match (collect(results.drop_last()), results.last()) {
            (Err(e), _) => Err(e),
            (Ok(_), Err(e)) => Err(e),
            (Ok(items), Ok(v)) => Ok(items.push(v)),
        }
    }
}

/// A lenient plural section: the values of the entries that have one, in
/// their order.
pub open spec fn successes<T>(results: Seq<Result<T, ErrorView>>) -> Seq<T>
    decreases results.len(),
{
    if results.len() == 0 {
        Seq::empty()
    } else {
        match results.last() {
            Ok(v) => successes(results.drop_last()).push(v),
            Err(_) => successes(results.drop_last()),
        }
    }
}

/// What a lenient plural section leaves out: the errors of the entries that
/// have no value, in their order.
pub open spec fn failures<T>(results: Seq<Result<T, ErrorView>>) -> Seq<ErrorView>
    decreases results.len(),
{
    if results.len() == 0 {
        Seq::empty()
    } else {
        match results.last() {
            Ok(_) => failures(results.drop_last()),
            Err(e) => failures(results.drop_last()).push(e),
        }
    }
}

/// An all-or-nothing section has a value exactly where every entry has
/// one; it then holds the entries' values in their order; and its error is
/// otherwise that of the first entry without a value.
pub proof fn lemma_collect<T>(results: Seq<Result<T, ErrorView>>)
    ensures
        collect(results) is Ok <==> (forall|i: int|
            0 <= i < results.len() ==> (#[trigger] results[i]) is Ok),
        collect(results) matches Ok(items) ==> items.len() == results.len() && (forall|i: int|
            0 <= i < results.len() ==> results[i] == Ok::<T, ErrorView>(#[trigger] items[i])),
        collect(results) matches Err(e) ==> (exists|k: int|
            0 <= k < results.len() && #[trigger] results[k] == Err::<T, ErrorView>(e) && (forall|
                j: int,
            |
                0 <= j < k ==> (#[trigger] results[j]) is Ok)),
    decreases results.len(),
{
    if results.len() > 0 {
        let front = results.drop_last();
        lemma_collect(front);
        assert(forall|i: int| 0 <= i < front.len() ==> front[i] == results[i]);
        match collect(front) {
            Err(e) => {
                let k = choose|k: int|
                    0 <= k < front.len() && #[trigger] front[k] == Err::<T, ErrorView>(e) && (
                    forall|j: int| 0 <= j < k ==> (#[trigger] front[j]) is Ok);
                assert(results[k] == Err::<T, ErrorView>(e));
                assert(forall|j: int| 0 <= j < k ==> (#[trigger] results[j]) is Ok);
            },
            Ok(items) => {
                match results.last() {
                    Err(e) => {
                        let k = results.len() - 1;
                        assert(results[k] == Err::<T, ErrorView>(e));
                        assert(forall|j: int| 0 <= j < k ==> (#[trigger] results[j]) is Ok);
                    },
                    Ok(v) => {
                        assert(results[results.len() - 1] is Ok);
                    },
                }
            },
        }
    }
}

/// How an all-or-nothing section, its successes and its failures grow with
/// the prefix of the entries they are taken from.
pub proof fn lemma_results_step<T>(results: Seq<Result<T, ErrorView>>, i: int)
    requires
        0 <= i < results.len(),
    ensures
        collect(results.take(i + 1)) == match (collect(results.take(i)), results[i]) {
            (Err(e), _) => Err::<Seq<T>, ErrorView>(e),
            (Ok(_), Err(e)) => Err(e),
            (Ok(items), Ok(v)) => Ok(items.push(v)),
        },
        successes(results.take(i + 1)) == match results[i] {
            Ok(v) => successes(results.take(i)).push(v),
            Err(_) => successes(results.take(i)),
        },
        failures(results.take(i + 1)) == match results[i] {
            Ok(_) => failures(results.take(i)),
            Err(e) => failures(results.take(i)).push(e),
        },
{
    assert(results.take(i + 1).drop_last() =~= results.take(i));
    assert(results.take(i + 1).last() == results[i]);
}

/// A lenient section parts its entries in two: every entry counts once,
/// every value kept is the value of some entry, every error reported is the
/// error of some entry, and no entry with a value is lost.
pub proof fn lemma_partition<T>(results: Seq<Result<T, ErrorView>>)
    ensures
        successes(results).len() + failures(results).len() == results.len(),
        forall|i: int|
            0 <= i < results.len() && (#[trigger] results[i]) is Ok ==> successes(
                results,
            ).contains(results[i]->Ok_0),
        forall|i: int|
            0 <= i < results.len() && (#[trigger] results[i]) is Err ==> failures(
                results,
            ).contains(results[i]->Err_0),
        forall|v: T| #[trigger]
            successes(results).contains(v) ==> results.contains(Ok::<T, ErrorView>(v)),
        forall|e: ErrorView| #[trigger]
            failures(results).contains(e) ==> results.contains(Err::<T, ErrorView>(e)),
    decreases results.len(),
{
    if results.len() > 0 {
        let front = results.drop_last();
        let last = results.last();
        lemma_partition(front);
        assert forall|i: int| 0 <= i < results.len() && (#[trigger] results[i]) is Ok implies successes(
            results,
        ).contains(results[i]->Ok_0) by {
            if i < front.len() {
                assert(front[i] == results[i]);
                let k = choose|k: int|
                    0 <= k < successes(front).len() && successes(front)[k] == results[i]->Ok_0;
                assert(successes(results)[k] == results[i]->Ok_0);
            } else {
                assert(successes(results)[successes(front).len() as int] == results[i]->Ok_0);
            }
        }
        assert forall|i: int|
            0 <= i < results.len() && (#[trigger] results[i]) is Err implies failures(
            results,
        ).contains(results[i]->Err_0) by {
            if i < front.len() {
                assert(front[i] == results[i]);
                let k = choose|k: int|
                    0 <= k < failures(front).len() && failures(front)[k] == results[i]->Err_0;
                assert(failures(results)[k] == results[i]->Err_0);
            } else {
                assert(failures(results)[failures(front).len() as int] == results[i]->Err_0);
            }
        }
        assert forall|v: T| #[trigger] successes(results).contains(v) implies results.contains(
            Ok::<T, ErrorView>(v),
        ) by {
            let k = choose|k: int| 0 <= k < successes(results).len() && successes(results)[k] == v;
            if k < successes(front).len() {
                assert(successes(front)[k] == v);
                assert(successes(front).contains(v));
                let i = choose|i: int| 0 <= i < front.len() && front[i] == Ok::<T, ErrorView>(v);
                assert(results[i] == Ok::<T, ErrorView>(v));
            } else {
                assert(results[results.len() - 1] == Ok::<T, ErrorView>(v));
            }
        }
        assert forall|e: ErrorView| #[trigger] failures(results).contains(e) implies results.contains(
            Err::<T, ErrorView>(e),
        ) by {
            let k = choose|k: int| 0 <= k < failures(results).len() && failures(results)[k] == e;
            if k < failures(front).len() {
                assert(failures(front)[k] == e);
                assert(failures(front).contains(e));
                let i = choose|i: int| 0 <= i < front.len() && front[i] == Err::<T, ErrorView>(e);
                assert(results[i] == Err::<T, ErrorView>(e));
            } else {
                assert(results[results.len() - 1] == Err::<T, ErrorView>(e));
            }
        }
    }
}

/// A lenient section of one well-formed and one malformed entry, in either
/// order, keeps exactly the well-formed one and reports the other.
pub proof fn lemma_one_of_two<T>(good: T, bad: ErrorView)
    ensures
        successes(seq![Ok::<T, ErrorView>(good), Err::<T, ErrorView>(bad)]) == seq![good],
        successes(seq![Err::<T, ErrorView>(bad), Ok::<T, ErrorView>(good)]) == seq![good],
        failures(seq![Ok::<T, ErrorView>(good), Err::<T, ErrorView>(bad)]) == seq![bad],
        failures(seq![Err::<T, ErrorView>(bad), Ok::<T, ErrorView>(good)]) == seq![bad],
{
    let first = seq![Ok::<T, ErrorView>(good), Err::<T, ErrorView>(bad)];
    let second = seq![Err::<T, ErrorView>(bad), Ok::<T, ErrorView>(good)];
    lemma_results_step(first, 0);
    lemma_results_step(first, 1);
    lemma_results_step(second, 0);
    lemma_results_step(second, 1);
    assert(first.take(0).len() == 0);
    assert(second.take(0).len() == 0);
    assert(first.take(2) =~= first);
    assert(second.take(2) =~= second);
    assert(successes(first) =~= seq![good]);
    assert(successes(second) =~= seq![good]);
    assert(failures(first) =~= seq![bad]);
    assert(failures(second) =~= seq![bad]);
}

/// A lenient section whose entries all have a value leaves nothing out.
pub proof fn lemma_all_accepted<T>(results: Seq<Result<T, ErrorView>>)
    requires
        forall|i: int| 0 <= i < results.len() ==> (#[trigger] results[i]) is Ok,
    ensures
        failures(results).len() == 0,
        successes(results).len() == results.len(),
        forall|i: int|
            0 <= i < results.len() ==> results[i] == Ok::<T, ErrorView>(
                #[trigger] successes(results)[i],
            ),
    decreases results.len(),
{
    if results.len() > 0 {
        let front = results.drop_last();
        assert(forall|i: int| 0 <= i < front.len() ==> front[i] == results[i]);
        lemma_all_accepted(front);
        assert(results[results.len() - 1] is Ok);
    }
}

/// Once a prefix of the entries has an error, an all-or-nothing section has
/// that error.
pub proof fn lemma_collect_prefix_error<T>(results: Seq<Result<T, ErrorView>>, k: int)
    requires
        0 <= k <= results.len(),
        collect(results.take(k)) is Err,
    ensures
        collect(results) == collect(results.take(k)),
    decreases results.len() - k,
{
    if k == results.len() {
        assert(results.take(k) =~= results);
    } else {
        lemma_results_step(results, k);
        lemma_collect_prefix_error(results, k + 1);
    }
}

impl XmlTree {
    /// Whether the node is an element of tag `tag`.
    pub open spec fn is_named(self, tag: Seq<char>) -> bool {
        self.kind == NodeKind::Element && self.tag == tag
    }

    /// The child elements of tag `tag`, in document order.
    pub open spec fn all_children(self, tag: Seq<char>) -> Seq<XmlTree> {
        self.children.filter(named(tag))
    }

    /// The first child element of tag `tag`.
    pub open spec fn child(self, tag: Seq<char>) -> Option<XmlTree> {
        if self.all_children(tag).len() > 0 {
            Some(self.all_children(tag).first())
        } else {
            None
        }
    }

    /// The first child element of tag `tag`, which must exist.
    pub open spec fn required_child(self, tag: Seq<char>) -> Result<XmlTree, ErrorView> {
        match self.child(tag) {
            Some(c) => Ok(c),
            None => Err(ErrorView::MissingField(tag)),
        }
    }

    /// The text of the first child element of tag `tag`; both must exist.
    pub open spec fn required_child_text(self, tag: Seq<char>) -> Result<Seq<char>, ErrorView> {
        match self.child(tag) {
            Some(XmlTree { text: Some(t), .. }) => Ok(t),
            _ => Err(ErrorView::MissingField(tag)),
        }
    }

    /// Whether the node has a child element of tag `tag` with a text.
    pub open spec fn has_text(self, tag: Seq<char>) -> bool {
        self.required_child_text(tag) is Ok
    }

    /// The text of the first child element of tag `tag`, where
    /// [`XmlTree::has_text`] holds.
    pub open spec fn text_under(self, tag: Seq<char>) -> Seq<char> {
        self.required_child_text(tag)->Ok_0
    }

    /// The value of the first attribute of name `name`, which must exist.
    pub open spec fn attribute(self, name: Seq<char>) -> Result<Seq<char>, ErrorView> {
        if self.attributes.filter(attribute_named(name)).len() > 0 {
            Ok(self.attributes.filter(attribute_named(name)).first().value)
        } else {
            Err(ErrorView::MissingAttribute(name))
        }
    }

    /// The attribute of name `name` read as a decimal number of 32 bits.
    pub open spec fn attribute_uint(self, name: Seq<char>) -> Result<u32, ErrorView> {
        match self.attribute(name) {
            Ok(raw) => typed(name, raw, spec_parse_u32(raw)),
            Err(e) => Err(e),
        }
    }

    /// The text under `tag` read as a decimal number of 32 bits.
    pub open spec fn required_child_uint(self, tag: Seq<char>) -> Result<u32, ErrorView> {
        match self.required_child_text(tag) {
            Ok(raw) => typed(tag, raw, spec_parse_u32(raw)),
            Err(e) => Err(e),
        }
    }

    /// The text under `tag` read as a decimal number of 64 bits.
    pub open spec fn required_child_uint64(self, tag: Seq<char>) -> Result<u64, ErrorView> {
        match self.required_child_text(tag) {
            Ok(raw) => typed(tag, raw, spec_parse_u64(raw)),
            Err(e) => Err(e),
        }
    }

    /// The text under `tag` read as an octal number of 32 bits.
    pub open spec fn required_child_octal(self, tag: Seq<char>) -> Result<u32, ErrorView> {
        match self.required_child_text(tag) {
            Ok(raw) => typed(tag, raw, spec_parse_octal(raw)),
            Err(e) => Err(e),
        }
    }

    /// The text under `tag` read as a calendar date.
    pub open spec fn required_child_date(self, tag: Seq<char>) -> Result<DateView, ErrorView> {
        match self.required_child_text(tag) {
            Ok(raw) => typed(tag, raw, spec_parse_date(raw)),
            Err(e) => Err(e),
        }
    }
}

/// Where no item before position `i` passes the test and the item at `i`
/// does, that item is the first to pass.
pub proof fn lemma_first_match<A>(s: Seq<A>, p: spec_fn(A) -> bool, i: int)
    requires
        0 <= i < s.len(),
        s.take(i).filter(p).len() == 0,
        p(s[i]),
    ensures
        s.filter(p).len() > 0,
        s.filter(p).first() == s[i],
{
    s.take(i).lemma_filter_push(s[i], p);
    assert(s.take(i + 1) =~= s.take(i).push(s[i]));
    Seq::filter_distributes_over_add(s.take(i + 1), s.skip(i + 1), p);
    assert(s =~= s.take(i + 1) + s.skip(i + 1));
}

/// How the items that pass the test grow with the prefix they are taken
/// from.
pub proof fn lemma_filter_step<A>(s: Seq<A>, p: spec_fn(A) -> bool, i: int)
    requires
        0 <= i < s.len(),
    ensures
        s.take(i + 1).filter(p) == if p(s[i]) {
            s.take(i).filter(p).push(s[i])
        } else {
            s.take(i).filter(p)
        },
{
    s.take(i).lemma_filter_push(s[i], p);
    assert(s.take(i + 1) =~= s.take(i).push(s[i]));
}

impl XmlNode {
    /// Whether the node is an element.
    pub fn is_element(&self) -> (r: bool)
        ensures
            r == (self@.kind == NodeKind::Element),
    {
        self.kind == NodeKind::Element
    }

    /// Whether the node is an element of tag `tag`.
    pub fn has_tag_name(&self, tag: &str) -> (r: bool)
        ensures
            r == self@.is_named(tag@),
    {
        self.kind == NodeKind::Element && str_eq(self.tag.as_str(), tag)
    }

    /// Every child element of tag `tag`, in document order.
    pub fn all_children(&self, tag: &str) -> (r: Vec<&XmlNode>)
        ensures
            views(r@) == self@.all_children(tag@),
    {
        let mut found: Vec<&XmlNode> = Vec::new();
        let mut i: usize = 0;
        while i < self.children.len()
            invariant
                i <= self.children.len(),
                views(found@) == self@.children.take(i as int).filter(named(tag@)),
            decreases self.children.len() - i,
        {
            let child = &self.children[i];
            proof {
                lemma_view_parts(self);
                lemma_filter_step(self@.children, named(tag@), i as int);
            }
            if child.has_tag_name(tag) {
                let ghost before = found@;
                found.push(child);
                assert(views(found@) =~= views(before).push(child@));
            }
            i += 1;
        }
        proof {
            lemma_view_parts(self);
            assert(self@.children.take(i as int) =~= self@.children);
        }
        found
    }

    /// The first child element of tag `tag`.
    pub fn required_child(&self, tag: &str) -> (r: Result<&XmlNode, Error>)
        ensures
            result_view(r) == self@.required_child(tag@),
    {
        let mut i: usize = 0;
        while i < self.children.len()
            invariant
                i <= self.children.len(),
                self@.children.take(i as int).filter(named(tag@)).len() == 0,
            decreases self.children.len() - i,
        {
            let child = &self.children[i];
            proof {
                lemma_view_parts(self);
            }
            if child.has_tag_name(tag) {
                proof {
                    lemma_first_match(self@.children, named(tag@), i as int);
                }
                return Ok(child);
            }
            proof {
                lemma_filter_step(self@.children, named(tag@), i as int);
            }
            i += 1;
        }
        proof {
            lemma_view_parts(self);
            assert(self@.children.take(i as int) =~= self@.children);
        }
        Err(Error::missing_field(tag))
    }

    /// The text of the first child element of tag `tag`.
    pub fn required_child_text(&self, tag: &str) -> (r: Result<&str, Error>)
        ensures
            result_view(r) == self@.required_child_text(tag@),
    {
        match self.required_child(tag) {
            Ok(child) => match &child.text {
                Some(t) => Ok(t.as_str()),
                None => Err(Error::missing_field(tag)),
            },
            Err(e) => Err(e),
        }
    }

    /// The value of the first attribute of name `name`.
    pub fn attribute(&self, name: &str) -> (r: Result<&str, Error>)
        ensures
            result_view(r) == self@.attribute(name@),
    {
        let mut i: usize = 0;
        while i < self.attributes.len()
            invariant
                i <= self.attributes.len(),
                self@.attributes.take(i as int).filter(attribute_named(name@)).len() == 0,
            decreases self.attributes.len() - i,
        {
            let a = &self.attributes[i];
            proof {
                lemma_view_parts(self);
            }
            if str_eq(a.name.as_str(), name) {
                proof {
                    lemma_first_match(self@.attributes, attribute_named(name@), i as int);
                }
                return Ok(a.value.as_str());
            }
            proof {
                lemma_filter_step(self@.attributes, attribute_named(name@), i as int);
            }
            i += 1;
        }
        proof {
            lemma_view_parts(self);
            assert(self@.attributes.take(i as int) =~= self@.attributes);
        }
        Err(Error::missing_attribute(name))
    }

    /// The attribute of name `name`, read as a decimal number of 32 bits.
    pub fn attribute_uint(&self, name: &str) -> (r: Result<u32, Error>)
        ensures
            result_view(r) == self@.attribute_uint(name@),
    {
        let raw = self.attribute(name)?;
        match parse_u32(raw) {
            Some(v) => Ok(v),
            None => Err(Error::invalid_value(name, raw)),
        }
    }

    /// The text under `tag`, read as a decimal number of 32 bits.
    pub fn required_child_uint(&self, tag: &str) -> (r: Result<u32, Error>)
        ensures
            result_view(r) == self@.required_child_uint(tag@),
    {
        let raw = self.required_child_text(tag)?;
        match parse_u32(raw) {
            Some(v) => Ok(v),
            None => Err(Error::invalid_value(tag, raw)),
        }
    }

    /// The text under `tag`, read as a decimal number of 64 bits.
    pub fn required_child_uint64(&self, tag: &str) -> (r: Result<u64, Error>)
        ensures
            result_view(r) == self@.required_child_uint64(tag@),
    {
        let raw = self.required_child_text(tag)?;
        match parse_u64(raw) {
            Some(v) => Ok(v),
            None => Err(Error::invalid_value(tag, raw)),
        }
    }

    /// The text under `tag`, read as an octal number of 32 bits.
    pub fn required_child_octal(&self, tag: &str) -> (r: Result<u32, Error>)
        ensures
            result_view(r) == self@.required_child_octal(tag@),
    {
        let raw = self.required_child_text(tag)?;
        match parse_octal(raw) {
            Some(v) => Ok(v),
            None => Err(Error::invalid_value(tag, raw)),
        }
    }

    /// The text under `tag`, read as a calendar date.
    pub fn required_child_date(&self, tag: &str) -> (r: Result<Date, Error>)
        ensures
            result_view(r) == self@.required_child_date(tag@),
    {
        let raw = self.required_child_text(tag)?;
        match Date::parse(raw) {
            Some(date) => Ok(date),
            None => Err(Error::invalid_value(tag, raw)),
        }
    }
}

} // verus!
