//! The helper registry: the mapping from a helper's name to its declared
//! parameters and its operation, and the entry point that evaluates a call.

use crate::binder::{bind, bind_outcome, bound_arguments_answer, HelperSpec, HelperSpecView};
use crate::fault::{ErrorView, HelperError};
use crate::ops::{
    accepted_arguments_are_shaped, accepts, apply, keyword_types, may_give, operand_types,
    operands, options, result_view, HelperOp,
};
use crate::signature::{name_of, op_name, signature, signature_is_accepted, signature_of};
use crate::text::same_text;
use crate::value::{entries_view, lookups_view, Lookup, Value, ValueView};
use vstd::prelude::*;

verus! {

/// One helper call as the engine hands it over: the name, the positional
/// arguments as they resolved, and the keyword arguments.
#[derive(Clone, Debug, PartialEq, Eq)]
pub struct HelperCall {
    pub name: String,
    pub params: Vec<Lookup>,
    pub hash: Vec<(String, Value)>,
}

/// The mathematical content of a [`HelperCall`].
pub struct HelperCallView {
    pub name: Seq<char>,
    pub params: Seq<Option<ValueView>>,
    pub hash: Seq<(Seq<char>, ValueView)>,
}

impl View for HelperCall {
    type V = HelperCallView;

    open spec fn view(&self) -> HelperCallView {
        HelperCallView {
            name: self.name@,
            params: lookups_view(self.params@),
            hash: entries_view(self.hash@),
        }
    }
}

/// A registered helper.
#[derive(Clone, Debug, PartialEq, Eq)]
pub struct Registered {
    pub name: String,
    pub spec: HelperSpec,
    pub op: HelperOp,
}

/// What a registry holds under a name: the declared parameters and the
/// operation.
pub type Entry = (HelperSpecView, HelperOp);

/// The mapping that a list of registrations stands for: each registration
/// replaces an earlier one of the same name.
pub open spec fn registered(entries: Seq<Registered>) -> Map<Seq<char>, Entry>
    decreases entries.len(),
{
    if entries.len() == 0 {
        Map::empty()
    } else {
        registered(entries.drop_last()).insert(
            entries.last().name@,
            (entries.last().spec@, entries.last().op),
        )
    }
}

/// The helpers known by name. It is filled before the first call is
/// evaluated and only read after that.
#[derive(Debug)]
pub struct Registry {
    entries: Vec<Registered>,
}

impl View for Registry {
    type V = Map<Seq<char>, Entry>;

    closed spec fn view(&self) -> Map<Seq<char>, Entry> {
        registered(self.entries@)
    }
}

/// Whether `at` is the place of the last registration under `name`.
spec fn is_last(entries: Seq<Registered>, name: Seq<char>, at: int) -> bool {
    &&& 0 <= at < entries.len()
    &&& entries[at].name@ == name
    &&& forall|j: int| at < j < entries.len() ==> entries[j].name@ != name
}

proof fn registered_at_last(entries: Seq<Registered>, name: Seq<char>, at: int)
    requires
        is_last(entries, name, at),
    ensures
        registered(entries).contains_key(name),
        registered(entries)[name] == (entries[at].spec@, entries[at].op),
    decreases entries.len(),
{
    if at < entries.len() - 1 {
        assert(entries.last().name@ != name);
        registered_at_last(entries.drop_last(), name, at);
    }
}

proof fn registered_nowhere(entries: Seq<Registered>, name: Seq<char>)
    requires
        forall|j: int| 0 <= j < entries.len() ==> entries[j].name@ != name,
    ensures
        !registered(entries).contains_key(name),
    decreases entries.len(),
{
    if entries.len() > 0 {
        assert(entries.last().name@ != name);
        registered_nowhere(entries.drop_last(), name);
    }
}

proof fn registered_replaced(entries: Seq<Registered>, at: int, entry: Registered)
    requires
        is_last(entries, entry.name@, at),
    ensures
        registered(entries.update(at, entry)) == registered(entries).insert(
            entry.name@,
            (entry.spec@, entry.op),
        ),
    decreases entries.len(),
{
    let after = entries.update(at, entry);
    if at < entries.len() - 1 {
        assert(after.drop_last() =~= entries.drop_last().update(at, entry));
        assert(after.last() == entries.last());
        registered_replaced(entries.drop_last(), at, entry);
        assert(registered(after) =~= registered(entries).insert(
            entry.name@,
            (entry.spec@, entry.op),
        ));
    } else {
        assert(after.drop_last() =~= entries.drop_last());
        assert(registered(after) =~= registered(entries).insert(
            entry.name@,
            (entry.spec@, entry.op),
        ));
    }
}

proof fn registered_names(entries: Seq<Registered>, name: Seq<char>)
    ensures
        registered(entries).contains_key(name) <==> exists|j: int|
            0 <= j < entries.len() && (#[trigger] entries[j]).name@ == name,
    decreases entries.len(),
{
    if entries.len() > 0 {
        let front = entries.drop_last();
        registered_names(front, name);
        if registered(entries).contains_key(name) {
            if entries.last().name@ == name {
                assert(entries[entries.len() - 1].name@ == name);
            } else {
                let j = choose|j: int| 0 <= j < front.len() && (#[trigger] front[j]).name@ == name;
                assert(entries[j].name@ == name);
            }
        }
        if exists|j: int| 0 <= j < entries.len() && (#[trigger] entries[j]).name@ == name {
            let j = choose|j: int| 0 <= j < entries.len() && (#[trigger] entries[j]).name@ == name;
            if j < entries.len() - 1 {
                assert(front[j].name@ == name);
            }
        }
    }
}

impl Registry {
    /// A registry without helpers.
    pub fn new() -> (r: Registry)
        ensures
            r@ == Map::<Seq<char>, Entry>::empty(),
    {
        Registry { entries: Vec::new() }
    }

    /// The place of the last registration under `name`.
    fn position(&self, name: &str) -> (r: Option<usize>)
        ensures
            match r {
                Some(at) => is_last(self.entries@, name@, at as int),
                None => forall|j: int|
                    0 <= j < self.entries@.len() ==> self.entries@[j].name@ != name@,
            },
    {
        let mut i: usize = self.entries.len();
        while i > 0
            invariant
                i <= self.entries@.len(),
                forall|j: int| i <= j < self.entries@.len() ==> self.entries@[j].name@ != name@,
            decreases i,
        {
            i -= 1;
            if same_text(self.entries[i].name.as_str(), name) {
                return Some(i);
            }
        }
        None
    }

    /// Registers a helper under `name`. A helper that was registered under
    /// the same name before is replaced.
    pub fn register(&mut self, name: String, spec: HelperSpec, op: HelperOp)
        ensures
            final(self)@ == old(self)@.insert(name@, (spec@, op)),
    {
        let found = self.position(name.as_str());
        let entry = Registered { name, spec, op };
        match found {
            Some(at) => {
                proof {
                    registered_replaced(self.entries@, at as int, entry);
                }
                self.entries.set(at, entry);
            },
            None => {
                proof {
                    assert(self.entries@.push(entry).drop_last() =~= self.entries@);
                }
                self.entries.push(entry);
            },
        }
    }

    /// The names under which a helper is registered.
    pub fn names(&self) -> (r: Vec<String>)
        ensures
            forall|name: Seq<char>|
                self@.contains_key(name) <==> exists|j: int|
                    0 <= j < r@.len() && (#[trigger] r@[j])@ == name,
    {
        let mut out: Vec<String> = Vec::new();
        let mut i: usize = 0;
        while i < self.entries.len()
            invariant
                i <= self.entries@.len(),
                out@.len() == i,
                forall|k: int| 0 <= k < i ==> (#[trigger] out@[k])@ == self.entries@[k].name@,
            decreases self.entries.len() - i,
        {
            out.push(self.entries[i].name.clone());
            i += 1;
        }
        proof {
            assert forall|name: Seq<char>|
                self@.contains_key(name) <==> exists|j: int|
                    0 <= j < out@.len() && (#[trigger] out@[j])@ == name by {
                registered_names(self.entries@, name);
                if self@.contains_key(name) {
                    let j = choose|j: int|
                        0 <= j < self.entries@.len() && (#[trigger] self.entries@[j]).name@
                            == name;
                    assert(out@[j]@ == name);
                }
                if exists|j: int| 0 <= j < out@.len() && (#[trigger] out@[j])@ == name {
                    let j = choose|j: int| 0 <= j < out@.len() && (#[trigger] out@[j])@ == name;
                    assert(self.entries@[j].name@ == name);
                }
            }
        }
        out
    }

    /// Looks a helper up by name.
    pub fn lookup(&self, name: &str) -> (r: Option<&Registered>)
        ensures
            match r {
                Some(e) => self@.contains_key(name@) && self@[name@] == (e.spec@, e.op),
                None => !self@.contains_key(name@),
            },
    {
        match self.position(name) {
            Some(at) => {
                proof {
                    registered_at_last(self.entries@, name@, at as int);
                }
                Some(&self.entries[at])
            },
            None => {
                proof {
                    registered_nowhere(self.entries@, name@);
                }
                None
            },
        }
    }
}

/// Decides whether declared parameters give an operation what it works on.
pub fn fits(op: HelperOp, spec: &HelperSpec) -> (r: bool)
    ensures
        r == accepts(op, spec@),
{
    let wanted = operands(op);
    let named = options(op);
    if spec.required.len() != wanted.len() || spec.keywords.len() != named.len() {
        return false;
    }
    let mut i: usize = 0;
    while i < wanted.len()
        invariant
            i <= wanted@.len(),
            wanted@ == operand_types(op),
            spec.required@.len() == wanted@.len(),
            forall|k: int| 0 <= k < i ==> (#[trigger] spec@.required[k]).ty == wanted@[k],
        decreases wanted.len() - i,
    {
        assert(spec@.required[i as int] == spec.required@[i as int]@);
        if spec.required[i].ty != wanted[i] {
            return false;
        }
        i += 1;
    }
    let mut j: usize = 0;
    while j < named.len()
        invariant
            j <= named@.len(),
            named@ == keyword_types(op),
            wanted@ == operand_types(op),
            spec.required@.len() == wanted@.len(),
            spec.keywords@.len() == named@.len(),
            forall|k: int|
                0 <= k < spec@.required.len() ==> (#[trigger] spec@.required[k]).ty == wanted@[k],
            forall|k: int| 0 <= k < j ==> (#[trigger] spec@.keywords[k]).ty == named@[k],
        decreases named.len() - j,
    {
        assert(spec@.keywords[j as int] == spec.keywords@[j as int]@);
        if spec.keywords[j].ty != named[j] {
            return false;
        }
        j += 1;
    }
    true
}

/// Whether `out` is a result that the evaluation of a call may give. A name
/// without a registration is an unknown helper; a registration whose
/// parameters do not suit its operation is a signature error; then the
/// arguments are bound, and the operation runs on them.
pub open spec fn may_evaluate(
    registry: Map<Seq<char>, Entry>,
    call: HelperCallView,
    out: Result<ValueView, ErrorView>,
) -> bool {
    if !registry.contains_key(call.name) {
        out == Err::<ValueView, ErrorView>(ErrorView::UnknownHelper { name: call.name })
    } else {
        let (spec, op) = registry[call.name];
        if !accepts(op, spec) {
            out == Err::<ValueView, ErrorView>(ErrorView::Signature { helper: call.name })
        } else {
            match bind_outcome(spec, call.params, call.hash) {
                Err(e) => out == Err::<ValueView, ErrorView>(e),
                Ok(b) => may_give(op, spec.name, b, out),
            }
        }
    }
}

/// Evaluates one helper call: looks the helper up, binds the arguments to
/// its declared parameters, and runs its operation.
pub fn evaluate_helper(registry: &Registry, call: &HelperCall) -> (r: Result<Value, HelperError>)
    ensures
        may_evaluate(registry@, call@, result_view(r)),
{
    match registry.lookup(call.name.as_str()) {
        None => Err(HelperError::UnknownHelper { name: call.name.clone() }),
        Some(entry) => {
            if !fits(entry.op, &entry.spec) {
                return Err(HelperError::Signature { helper: call.name.clone() });
            }
            match bind(&entry.spec, &call.params, &call.hash) {
                Err(e) => Err(e),
                Ok(bound) => {
                    proof {
                        bound_arguments_answer(entry.spec@, call@.params, call@.hash);
                        accepted_arguments_are_shaped(entry.op, entry.spec@, bound@);
                    }
                    apply(entry.op, entry.spec.name.as_str(), &bound)
                },
            }
        },
    }
}

/// Whether `out` is a result that an operation may give for a call when it
/// is declared as it stands, under the name of the call.
pub open spec fn may_call(
    op: HelperOp,
    call: HelperCallView,
    out: Result<ValueView, ErrorView>,
) -> bool {
    match bind_outcome(signature_of(op, call.name), call.params, call.hash) {
        Err(e) => out == Err::<ValueView, ErrorView>(e),
        Ok(b) => may_give(op, call.name, b, out),
    }
}

/// Runs an operation on a call, without a registry: the arguments are bound
/// to the parameters that the operation is declared with.
pub fn call_op(op: HelperOp, call: &HelperCall) -> (r: Result<Value, HelperError>)
    ensures
        may_call(op, call@, result_view(r)),
{
    let spec = signature(op, call.name.as_str());
    match bind(&spec, &call.params, &call.hash) {
        Err(e) => Err(e),
        Ok(bound) => {
            proof {
                signature_is_accepted(op, call.name@);
                bound_arguments_answer(spec@, call@.params, call@.hash);
                accepted_arguments_are_shaped(op, spec@, bound@);
            }
            apply(op, call.name.as_str(), &bound)
        },
    }
}

/// What a registry holds once each of `ops` is registered under its own
/// name, one after the other, with the parameters it is declared with.
pub open spec fn with_helpers(m: Map<Seq<char>, Entry>, ops: Seq<HelperOp>) -> Map<
    Seq<char>,
    Entry,
>
    decreases ops.len(),
{
    if ops.len() == 0 {
        m
    } else {
        with_helpers(m, ops.drop_last()).insert(
            op_name(ops.last()),
            (signature_of(ops.last(), op_name(ops.last())), ops.last()),
        )
    }
}

/// Registers each of `ops` under its own name.
pub fn add_helpers(x: &mut Registry, ops: &Vec<HelperOp>)
    ensures
        final(x)@ == with_helpers(old(x)@, ops@),
{
    let mut i: usize = 0;
    while i < ops.len()
        invariant
            i <= ops@.len(),
            x@ == with_helpers(old(x)@, ops@.take(i as int)),
        decreases ops.len() - i,
    {
        let op = ops[i];
        proof {
            assert(ops@.take(i + 1).drop_last() =~= ops@.take(i as int));
        }
        x.register(String::from_str(name_of(op)), signature(op, name_of(op)), op);
        i += 1;
    }
    proof {
        assert(ops@.take(i as int) =~= ops@);
    }
}

/// A helper that is registered stays as it was registered until its name is
/// registered again: registering under another name changes nothing of it.
pub proof fn register_keeps_others(
    m: Map<Seq<char>, Entry>,
    name: Seq<char>,
    entry: Entry,
    other: Seq<char>,
)
    requires
        other != name,
    ensures
        m.insert(name, entry).contains_key(other) == m.contains_key(other),
        m.contains_key(other) ==> m.insert(name, entry)[other] == m[other],
        m.insert(name, entry).contains_key(name),
        m.insert(name, entry)[name] == entry,
{
}

} // verus!
