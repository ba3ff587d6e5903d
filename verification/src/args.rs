//! The arguments of a call: values, some of them under a name, that a
//! function takes what it needs from and leaves the rest of.

use crate::geom::{Align, Length, Spec};
use crate::template::Template;
use vstd::prelude::*;

verus! {

/// The kinds of value.
#[derive(Clone, Copy, Debug, PartialEq, Eq, Hash, Structural)]
pub enum ValueKind {
    Int,
    Length,
    Alignment,
    Template,
}

/// A value that a call can be given.
#[derive(Debug, PartialEq, Eq, Hash)]
pub enum Value {
    Int(i64),
    Length(Length),
    /// An alignment on the one axis that it belongs to.
    Align(Align),
    /// An alignment on each axis.
    Aligns(Spec<Align>),
    Template(Template),
}

impl Value {
    pub open spec fn kind_of(self) -> ValueKind {
        match self {
            Value::Int(_) => ValueKind::Int,
            Value::Length(_) => ValueKind::Length,
            Value::Align(_) => ValueKind::Alignment,
            Value::Aligns(_) => ValueKind::Alignment,
            Value::Template(_) => ValueKind::Template,
        }
    }

    /// The value read as an alignment on each axis, if it is an alignment.
    /// One that is given for a single axis leaves the other axis unset.
    pub open spec fn as_aligns(self) -> Option<Spec<Option<Align>>> {
        match self {
            Value::Align(align) => Some(align.on_its_axis()),
            Value::Aligns(aligns) => Some(Spec { x: Some(aligns.x), y: Some(aligns.y) }),
            _ => None,
        }
    }

    pub fn kind(&self) -> (r: ValueKind)
        ensures
            r == self.kind_of(),
    {
        match self {
            Value::Int(_) => ValueKind::Int,
            Value::Length(_) => ValueKind::Length,
            Value::Align(_) => ValueKind::Alignment,
            Value::Aligns(_) => ValueKind::Alignment,
            Value::Template(_) => ValueKind::Template,
        }
    }

    pub fn aligns(&self) -> (r: Option<Spec<Option<Align>>>)
        ensures
            r == self.as_aligns(),
    {
        match self {
            Value::Align(align) => Some(align.along_its_axis()),
            Value::Aligns(aligns) => Some(Spec { x: Some(aligns.x), y: Some(aligns.y) }),
            _ => None,
        }
    }
}

/// The parameters of a placement that an argument can fail to fit.
#[derive(Clone, Copy, Debug, PartialEq, Eq, Hash, Structural)]
pub enum Param {
    /// The horizontal offset, given under the name `dx`.
    Dx,
    /// The vertical offset, given under the name `dy`.
    Dy,
    /// What is placed: the first argument without a name.
    Body,
}

impl Param {
    /// The name under which the parameter is known.
    pub open spec fn label(self) -> Seq<char> {
        match self {
            Param::Dx => "dx"@,
            Param::Dy => "dy"@,
            Param::Body => "body"@,
        }
    }

    pub fn name(self) -> (r: String)
        ensures
            r@ == self.label(),
    {
        match self {
            Param::Dx => "dx".to_owned(),
            Param::Dy => "dy".to_owned(),
            Param::Body => "body".to_owned(),
        }
    }
}

/// Why arguments could not be bound.
#[derive(Clone, Copy, Debug, PartialEq, Eq, Hash, Structural)]
pub enum ArgError {
    /// No argument is left for a parameter that must have one.
    Missing { param: Param },
    /// The argument for a parameter holds a value of the wrong kind.
    Mismatch { param: Param, expected: ValueKind, found: ValueKind },
}

/// One argument: a value, with or without a name.
#[derive(Debug, PartialEq, Eq, Hash)]
pub struct Arg {
    pub name: Option<String>,
    pub value: Value,
}

impl Arg {
    pub open spec fn is_named(self, name: Seq<char>) -> bool {
        self.name matches Some(own) && own@ == name
    }

    pub fn positional(value: Value) -> (r: Arg)
        ensures
            r.name is None,
            r.value == value,
    {
        Arg { name: None, value }
    }

    pub fn named(name: String, value: Value) -> (r: Arg)
        ensures
            r.name == Some(name),
            r.value == value,
    {
        Arg { name: Some(name), value }
    }

    pub fn has_name(&self, name: &String) -> (r: bool)
        ensures
            r == self.is_named(name@),
    {
        match &self.name {
            Some(own) => *own == *name,
            None => false,
        }
    }
}

/// The arguments that are left of a call, in the order in which they were
/// written.
#[derive(Debug, PartialEq, Eq, Hash)]
pub struct Args {
    pub items: Vec<Arg>,
}

impl View for Args {
    type V = Seq<Arg>;

    open spec fn view(&self) -> Seq<Arg> {
        self.items@
    }
}

/// An argument without a name that holds an alignment.
pub open spec fn holds_alignment() -> spec_fn(Arg) -> bool {
    |arg: Arg| arg.name is None && arg.value.as_aligns() is Some
}

/// An argument without a name.
pub open spec fn is_positional() -> spec_fn(Arg) -> bool {
    |arg: Arg| arg.name is None
}

/// An argument under the name `name` that holds no length.
pub open spec fn misnamed(name: Seq<char>) -> spec_fn(Arg) -> bool {
    |arg: Arg| arg.is_named(name) && !(arg.value is Length)
}

/// An argument that does not go by the name `name`.
pub open spec fn not_named(name: Seq<char>) -> spec_fn(Arg) -> bool {
    |arg: Arg| !arg.is_named(name)
}

/// An argument that goes by the name `name`.
pub open spec fn named(name: Seq<char>) -> spec_fn(Arg) -> bool {
    |arg: Arg| arg.is_named(name)
}

/// Whether `k` is the first place in `items` at which `pred` holds.
pub open spec fn is_first(items: Seq<Arg>, pred: spec_fn(Arg) -> bool, k: int) -> bool {
    &&& 0 <= k < items.len()
    &&& pred(items[k])
    &&& forall|j: int| 0 <= j < k ==> !pred(#[trigger] items[j])
}

/// The first place in `items` at which `pred` holds, if there is one.
pub open spec fn first(items: Seq<Arg>, pred: spec_fn(Arg) -> bool) -> Option<int> {
    if exists|k: int| is_first(items, pred, k) {
        Some(choose|k: int| is_first(items, pred, k))
    } else {
        None
    }
}

/// The length that the last argument under the name `name` holds.
pub open spec fn last_length(items: Seq<Arg>, name: Seq<char>) -> Option<Length>
    decreases items.len(),
{
    if items.len() == 0 {
        None
    } else if items.last().is_named(name) {
        match items.last().value {
            Value::Length(length) => Some(length),
            _ => None,
        }
    } else {
        last_length(items.drop_last(), name)
    }
}

/// The length that the last of `items` holds, if it holds one.
pub open spec fn length_of_last(items: Seq<Arg>) -> Option<Length> {
    if items.len() == 0 {
        None
    } else {
        match items.last().value {
            Value::Length(length) => Some(length),
            _ => None,
        }
    }
}

/// Whether some argument goes by the name of `param` and holds no length.
pub open spec fn has_misnamed(items: Seq<Arg>, param: Param) -> bool {
    exists|i: int| 0 <= i < items.len() && misnamed(param.label())(#[trigger] items[i])
}

/// The error for the first argument that goes by the name of `param` and
/// holds no length: it names the parameter and the kind of value found.
pub open spec fn length_mismatch(items: Seq<Arg>, param: Param) -> ArgError {
    ArgError::Mismatch {
        param,
        expected: ValueKind::Length,
        found: items.filter(misnamed(param.label()))[0].value.kind_of(),
    }
}

/// What looking for an alignment finds, and what it leaves: the alignment of
/// the first argument without a name that holds one, which is taken out.
pub open spec fn found_aligns(items: Seq<Arg>) -> (Option<Spec<Option<Align>>>, Seq<Arg>) {
    match first(items, holds_alignment()) {
        Some(k) => (items[k].value.as_aligns(), items.remove(k)),
        None => (None, items),
    }
}

/// What binding a length to a name finds, and what it leaves. Every
/// argument under the name is taken out, and the last of them counts. The
/// first of them that holds no length stops the search: it is taken out
/// too, and what stands behind it stays.
pub open spec fn bound_length(items: Seq<Arg>, param: Param) -> (
    Result<Option<Length>, ArgError>,
    Seq<Arg>,
) {
    let name = param.label();
    match first(items, misnamed(name)) {
        Some(k) => (
            Err(
                ArgError::Mismatch {
                    param,
                    expected: ValueKind::Length,
                    found: items[k].value.kind_of(),
                },
            ),
            items.take(k).filter(not_named(name)) + items.skip(k + 1),
        ),
        None => (Ok(last_length(items, name)), items.filter(not_named(name))),
    }
}

/// What asking for the body finds, and what it leaves: the first argument
/// without a name, which is taken out and must hold a template.
pub open spec fn expected_body(items: Seq<Arg>) -> (Result<Template, ArgError>, Seq<Arg>) {
    match first(items, is_positional()) {
        Some(k) => (
            match items[k].value {
                Value::Template(template) => Ok(template),
                other => Err(
                    ArgError::Mismatch {
                        param: Param::Body,
                        expected: ValueKind::Template,
                        found: other.kind_of(),
                    },
                ),
            },
            items.remove(k),
        ),
        None => (Err(ArgError::Missing { param: Param::Body }), items),
    }
}

/// Where `pred` holds at `k` and nowhere before, `k` is the first place.
pub proof fn lemma_first_is(items: Seq<Arg>, pred: spec_fn(Arg) -> bool, k: int)
    requires
        is_first(items, pred, k),
    ensures
        first(items, pred) == Some(k),
{
    let chosen = choose|c: int| is_first(items, pred, c);
    assert(is_first(items, pred, chosen));
    if chosen < k {
        assert(!pred(items[chosen]));
    }
    if k < chosen {
        assert(!pred(items[k]));
    }
}

/// Where `pred` holds nowhere, there is no first place.
pub proof fn lemma_first_is_none(items: Seq<Arg>, pred: spec_fn(Arg) -> bool)
    requires
        forall|j: int| 0 <= j < items.len() ==> !pred(#[trigger] items[j]),
    ensures
        first(items, pred) is None,
{
    assert forall|k: int| !is_first(items, pred, k) by {
        if 0 <= k < items.len() {
            assert(!pred(items[k]));
        }
    }
}

/// Where `pred` holds somewhere, there is a first place at which it holds.
pub proof fn lemma_first_exists(items: Seq<Arg>, pred: spec_fn(Arg) -> bool, i: int)
    requires
        0 <= i < items.len(),
        pred(items[i]),
    ensures
        first(items, pred) is Some,
    decreases i,
{
    if forall|j: int| 0 <= j < i ==> !pred(#[trigger] items[j]) {
        lemma_first_is(items, pred, i);
    } else {
        let j = choose|j: int| 0 <= j < i && pred(#[trigger] items[j]);
        lemma_first_exists(items, pred, j);
    }
}

/// The first argument for which `pred` holds is the first of those for
/// which it holds, and there is none exactly where there are none of those.
pub proof fn lemma_first_heads_filter(items: Seq<Arg>, pred: spec_fn(Arg) -> bool)
    ensures
        match first(items, pred) {
            Some(k) => is_first(items, pred, k) && items.filter(pred).len() > 0 && items.filter(
                pred,
            )[0] == items[k],
            None => items.filter(pred).len() == 0,
        },
    decreases items.len(),
{
    reveal(Seq::filter);
    if items.len() == 0 {
        lemma_first_is_none(items, pred);
    } else {
        let init = items.drop_last();
        lemma_first_heads_filter(init, pred);
        match first(init, pred) {
            Some(k) => {
                assert forall|j: int| 0 <= j < k implies !pred(#[trigger] items[j]) by {
                    assert(init[j] == items[j]);
                }
                assert(init[k] == items[k]);
                lemma_first_is(items, pred, k);
            },
            None => {
                assert forall|j: int| 0 <= j < init.len() implies !pred(#[trigger] items[j]) by {
                    assert(init[j] == items[j]);
                    if pred(init[j]) {
                        lemma_first_exists(init, pred, j);
                    }
                }
                if pred(items.last()) {
                    lemma_first_is(items, pred, items.len() - 1);
                } else {
                    lemma_first_is_none(items, pred);
                }
            },
        }
    }
}

/// Taking out arguments leaves those alone that are kept: among what a
/// filter keeps, the arguments for which `pred` holds are those of the whole,
/// where the filter keeps every argument for which `pred` holds.
pub proof fn lemma_filter_of_kept(
    items: Seq<Arg>,
    keep: spec_fn(Arg) -> bool,
    pred: spec_fn(Arg) -> bool,
)
    requires
        forall|arg: Arg| #[trigger] pred(arg) ==> keep(arg),
    ensures
        items.filter(keep).filter(pred) == items.filter(pred),
    decreases items.len(),
{
    reveal(Seq::filter);
    if items.len() > 0 {
        let init = items.drop_last();
        lemma_filter_of_kept(init, keep, pred);
        if keep(items.last()) {
            let kept = init.filter(keep);
            assert(kept.push(items.last()).drop_last() =~= kept);
        }
    }
}

/// Taking out one argument for which `pred` does not hold leaves the
/// arguments for which it holds as they are.
pub proof fn lemma_filter_of_rest(items: Seq<Arg>, k: int, pred: spec_fn(Arg) -> bool)
    requires
        0 <= k < items.len(),
        !pred(items[k]),
    ensures
        items.remove(k).filter(pred) == items.filter(pred),
{
    let front = items.take(k);
    let taken = seq![items[k]];
    let back = items.skip(k + 1);
    assert(items =~= front + taken + back);
    assert(items.remove(k) =~= front + back);
    Seq::<Arg>::filter_distributes_over_add(front, back, pred);
    Seq::<Arg>::filter_distributes_over_add(front + taken, back, pred);
    Seq::<Arg>::filter_distributes_over_add(front, taken, pred);
    assert(taken.filter(pred) =~= Seq::<Arg>::empty()) by {
        reveal_with_fuel(Seq::filter, 2);
        assert(taken.drop_last() =~= Seq::<Arg>::empty());
    }
    assert(front.filter(pred) + taken.filter(pred) =~= front.filter(pred));
}

/// The length bound to a name is the one that the last argument under the
/// name holds.
pub proof fn lemma_last_length_of_named(items: Seq<Arg>, name: Seq<char>)
    ensures
        last_length(items, name) == length_of_last(items.filter(named(name))),
    decreases items.len(),
{
    reveal(Seq::filter);
    if items.len() > 0 {
        lemma_last_length_of_named(items.drop_last(), name);
    }
}

/// Binding a length to a name fails exactly where some argument under the
/// name holds no length, with the error for the first such argument. Where
/// it succeeds, it gives the length that the last argument under the name
/// holds and leaves the arguments that go by other names or by none.
pub proof fn lemma_bound_length_outcome(items: Seq<Arg>, param: Param)
    ensures
        bound_length(items, param).0 == (if has_misnamed(items, param) {
            Err::<Option<Length>, ArgError>(length_mismatch(items, param))
        } else {
            Ok(length_of_last(items.filter(named(param.label()))))
        }),
        !has_misnamed(items, param) ==> bound_length(items, param).1 == items.filter(
            not_named(param.label()),
        ),
{
    let pred = misnamed(param.label());
    lemma_last_length_of_named(items, param.label());
    lemma_first_heads_filter(items, pred);
    if has_misnamed(items, param) {
        let i = choose|i: int| 0 <= i < items.len() && misnamed(param.label())(#[trigger] items[i]);
        lemma_first_exists(items, pred, i);
    }
}

impl Args {
    pub fn new(items: Vec<Arg>) -> (r: Args)
        ensures
            r@ == items@,
    {
        Args { items }
    }

    /// Finds and takes out the first argument without a name that holds an
    /// alignment.
    pub fn find_aligns(&mut self) -> (r: Option<Spec<Option<Align>>>)
        ensures
            (r, final(self)@) == found_aligns(old(self)@),
    {
        let ghost before = self@;
        let mut i: usize = 0;
        while i < self.items.len()
            invariant
                i <= self.items.len(),
                before == old(self)@,
                self.items@ == before,
                forall|j: int| 0 <= j < i ==> !holds_alignment()(#[trigger] before[j]),
            decreases self.items.len() - i,
        {
            if self.items[i].name.is_none() {
                match self.items[i].value.aligns() {
                    Some(aligns) => {
                        proof {
                            lemma_first_is(before, holds_alignment(), i as int);
                        }
                        self.items.remove(i);
                        return Some(aligns);
                    },
                    None => {},
                }
            }
            i = i + 1;
        }
        proof {
            lemma_first_is_none(before, holds_alignment());
        }
        None
    }

    /// Takes out the arguments under the name of `param` and gives the
    /// length that the last of them holds. Fails at the first of them that
    /// holds no length.
    pub fn named_length(&mut self, param: Param) -> (r: Result<Option<Length>, ArgError>)
        ensures
            (r, final(self)@) == bound_length(old(self)@, param),
    {
        let key = param.name();
        let ghost before = self@;
        let ghost name = param.label();
        let ghost mut p: int = 0;
        let mut found: Option<Length> = None;
        let mut i: usize = 0;
        proof {
            reveal(Seq::filter);
            assert(before.take(0).filter(not_named(name)) =~= Seq::<Arg>::empty());
            assert(self.items@ =~= before.take(0).filter(not_named(name)) + before.skip(0));
        }
        while i < self.items.len()
            invariant
                key@ == name,
                name == param.label(),
                before == old(self)@,
                0 <= p <= before.len(),
                i == before.take(p).filter(not_named(name)).len(),
                self.items@ == before.take(p).filter(not_named(name)) + before.skip(p),
                forall|j: int| 0 <= j < p ==> !misnamed(name)(#[trigger] before[j]),
                found == last_length(before.take(p), name),
            decreases before.len() - p,
        {
            let ghost kept = before.take(p).filter(not_named(name));
            let ghost next = before.take(p + 1);
            proof {
                reveal(Seq::filter);
                assert(self.items@[i as int] == before.skip(p)[0]);
                assert(next.drop_last() =~= before.take(p));
                assert(next.last() == before[p]);
            }
            if self.items[i].has_name(&key) {
                let arg = self.items.remove(i);
                assert(self.items@ =~= kept + before.skip(p + 1));
                match arg.value {
                    Value::Length(length) => {
                        found = Some(length);
                        proof {
                            p = p + 1;
                        }
                    },
                    other => {
                        proof {
                            lemma_first_is(before, misnamed(name), p);
                        }
                        return Err(
                            ArgError::Mismatch {
                                param,
                                expected: ValueKind::Length,
                                found: other.kind(),
                            },
                        );
                    },
                }
            } else {
                proof {
                    assert(self.items@ =~= kept.push(before[p]) + before.skip(p + 1));
                    p = p + 1;
                }
                i = i + 1;
            }
        }
        proof {
            assert(before.take(p) =~= before);
            assert(self.items@ =~= before.filter(not_named(name)));
            lemma_first_is_none(before, misnamed(name));
        }
        Ok(found)
    }

    /// Takes out the first argument without a name, which must hold a
    /// template.
    pub fn expect_body(&mut self) -> (r: Result<Template, ArgError>)
        ensures
            (r, final(self)@) == expected_body(old(self)@),
    {
        let ghost before = self@;
        let mut i: usize = 0;
        while i < self.items.len()
            invariant
                i <= self.items.len(),
                before == old(self)@,
                self.items@ == before,
                forall|j: int| 0 <= j < i ==> !is_positional()(#[trigger] before[j]),
            decreases self.items.len() - i,
        {
            if self.items[i].name.is_none() {
                proof {
                    lemma_first_is(before, is_positional(), i as int);
                }
                let arg = self.items.remove(i);
                return match arg.value {
                    Value::Template(template) => Ok(template),
                    other => Err(
                        ArgError::Mismatch {
                            param: Param::Body,
                            expected: ValueKind::Template,
                            found: other.kind(),
                        },
                    ),
                };
            }
            i = i + 1;
        }
        proof {
            lemma_first_is_none(before, is_positional());
        }
        Err(ArgError::Missing { param: Param::Body })
    }
}

} // verus!
