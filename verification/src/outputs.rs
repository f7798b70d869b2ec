//! The outputs that the engine renders: registering them, swapping their
//! active scene, and unregistering them.

use vstd::prelude::*;
use crate::scene::SceneNode;

verus! {

/// The size of an output in pixels.
#[derive(Clone, Copy, Debug, PartialEq, Eq, Structural)]
pub struct Resolution {
    pub width: usize,
    pub height: usize,
}

/// What becomes of the frames of an output.
#[derive(Clone, Copy, Debug, PartialEq, Eq, Structural)]
pub enum OutputKind {
    /// Raw frames, handed to the application for display.
    Preview,
    /// Encoded frames, written to a file.
    Recording,
}

/// When an output ends by itself.
#[derive(Clone, Copy, Debug, PartialEq, Eq, Structural)]
pub enum EndCondition {
    /// It lasts until it is unregistered.
    Never,
}

/// A registered output and the scene that it shows.
#[derive(Debug, PartialEq, Eq)]
pub struct OutputHandle {
    pub id: String,
    pub kind: OutputKind,
    pub resolution: Resolution,
    pub scene: SceneNode,
    pub end_condition: EndCondition,
}

/// Why an output could not be registered.
#[derive(Clone, Copy, Debug, PartialEq, Eq, Structural)]
pub enum RegistrationError {
    /// The resolution is zero in one dimension.
    InvalidResolution,
    /// An output with this identifier is registered already.
    DuplicateId,
}

/// No output with the given identifier is registered.
#[derive(Clone, Copy, Debug, PartialEq, Eq, Structural)]
pub struct UnknownOutputError;

impl Resolution {
    /// Whether an output can have this resolution.
    pub open spec fn valid(self) -> bool {
        self.width > 0 && self.height > 0
    }

    pub fn is_valid(&self) -> (r: bool)
        ensures
            r == self.valid(),
    {
        self.width > 0 && self.height > 0
    }
}

impl OutputHandle {
    /// A copy of this handle.
    pub fn duplicate(&self) -> (r: OutputHandle)
        ensures
            r == *self,
    {
        OutputHandle {
            id: self.id.clone(),
            kind: self.kind,
            resolution: self.resolution,
            scene: self.scene.duplicate(),
            end_condition: self.end_condition,
        }
    }

    /// This handle with `scene` as its active scene.
    pub open spec fn showing(self, scene: SceneNode) -> OutputHandle {
        OutputHandle { scene, ..self }
    }
}

/// Whether `outputs` holds an output named `id`.
pub open spec fn has_id(outputs: Seq<OutputHandle>, id: Seq<char>) -> bool {
    exists|i: int| 0 <= i < outputs.len() && outputs[i].id@ == id
}

/// Whether no two of `outputs` share an identifier.
pub open spec fn distinct_ids(outputs: Seq<OutputHandle>) -> bool {
    forall|i: int, j: int| 0 <= i < j < outputs.len() ==> outputs[i].id@ != outputs[j].id@
}

/// The outputs by their identifiers.
pub open spec fn by_id(outputs: Seq<OutputHandle>) -> Map<Seq<char>, OutputHandle> {
    Map::new(
        |id: Seq<char>| has_id(outputs, id),
        |id: Seq<char>| outputs[choose|i: int| 0 <= i < outputs.len() && outputs[i].id@ == id],
    )
}

/// Among outputs with distinct identifiers, each is found under its own.
proof fn lemma_lookup(outputs: Seq<OutputHandle>, i: int)
    requires
        distinct_ids(outputs),
        0 <= i < outputs.len(),
    ensures
        by_id(outputs).dom().contains(outputs[i].id@),
        by_id(outputs)[outputs[i].id@] == outputs[i],
{
    let id = outputs[i].id@;
    let k = choose|k: int| 0 <= k < outputs.len() && outputs[k].id@ == id;
    assert(k == i) by {
        if k < i {
            assert(outputs[k].id@ != outputs[i].id@);
        } else if i < k {
            assert(outputs[i].id@ != outputs[k].id@);
        }
    }
}

/// Appending an output with a new identifier inserts it into the table.
proof fn lemma_push(outputs: Seq<OutputHandle>, handle: OutputHandle)
    requires
        distinct_ids(outputs),
        !has_id(outputs, handle.id@),
    ensures
        distinct_ids(outputs.push(handle)),
        by_id(outputs.push(handle)) == by_id(outputs).insert(handle.id@, handle),
{
    let longer = outputs.push(handle);
    assert forall|i: int, j: int| 0 <= i < j < longer.len() implies longer[i].id@
        != longer[j].id@ by {
        if j == outputs.len() {
            assert(outputs[i].id@ != handle.id@);
        } else {
            assert(outputs[i].id@ != outputs[j].id@);
        }
    }
    let target = by_id(outputs).insert(handle.id@, handle);
    assert forall|id: Seq<char>| by_id(longer).dom().contains(id) <==> target.dom().contains(
        id,
    ) by {
        if has_id(longer, id) {
            let i = choose|i: int| 0 <= i < longer.len() && longer[i].id@ == id;
            if i < outputs.len() {
                assert(outputs[i].id@ == id);
            }
        }
        if has_id(outputs, id) {
            let i = choose|i: int| 0 <= i < outputs.len() && outputs[i].id@ == id;
            assert(longer[i].id@ == id);
        }
        if id == handle.id@ {
            assert(longer[outputs.len() as int].id@ == id);
        }
    }
    assert forall|id: Seq<char>| by_id(longer).dom().contains(id) implies by_id(longer)[id]
        == target[id] by {
        let i = choose|i: int| 0 <= i < longer.len() && longer[i].id@ == id;
        lemma_lookup(longer, i);
        if i < outputs.len() {
            assert(outputs[i].id@ == id);
            lemma_lookup(outputs, i);
        }
    }
    assert(by_id(longer) =~= target);
}

/// Taking an output out of the list removes it from the table.
proof fn lemma_remove(outputs: Seq<OutputHandle>, at: int)
    requires
        distinct_ids(outputs),
        0 <= at < outputs.len(),
    ensures
        distinct_ids(outputs.remove(at)),
        by_id(outputs.remove(at)) == by_id(outputs).remove(outputs[at].id@),
{
    let shorter = outputs.remove(at);
    let gone = outputs[at].id@;
    assert forall|i: int| 0 <= i < shorter.len() implies shorter[i] == outputs[if i < at {
        i
    } else {
        i + 1
    }] by {}
    assert forall|i: int, j: int| 0 <= i < j < shorter.len() implies shorter[i].id@
        != shorter[j].id@ by {
        let a = if i < at { i } else { i + 1 };
        let b = if j < at { j } else { j + 1 };
        assert(outputs[a].id@ != outputs[b].id@);
    }
    let target = by_id(outputs).remove(gone);
    assert forall|id: Seq<char>| by_id(shorter).dom().contains(id) <==> target.dom().contains(
        id,
    ) by {
        if has_id(shorter, id) {
            let i = choose|i: int| 0 <= i < shorter.len() && shorter[i].id@ == id;
            let a = if i < at { i } else { i + 1 };
            assert(outputs[a].id@ == id);
            if a < at {
                assert(outputs[a].id@ != outputs[at].id@);
            } else {
                assert(outputs[at].id@ != outputs[a].id@);
            }
        }
        if has_id(outputs, id) && id != gone {
            let a = choose|a: int| 0 <= a < outputs.len() && outputs[a].id@ == id;
            let i = if a < at { a } else { a - 1 };
            assert(shorter[i].id@ == id);
        }
    }
    assert forall|id: Seq<char>| by_id(shorter).dom().contains(id) implies by_id(shorter)[id]
        == target[id] by {
        let i = choose|i: int| 0 <= i < shorter.len() && shorter[i].id@ == id;
        let a = if i < at { i } else { i + 1 };
        lemma_lookup(shorter, i);
        lemma_lookup(outputs, a);
    }
    assert(by_id(shorter) =~= target);
}

/// Putting an output with a new identifier into the list, at any place,
/// inserts it into the table.
proof fn lemma_insert_back(outputs: Seq<OutputHandle>, at: int, handle: OutputHandle)
    requires
        distinct_ids(outputs),
        0 <= at <= outputs.len(),
        !has_id(outputs, handle.id@),
    ensures
        distinct_ids(outputs.insert(at, handle)),
        by_id(outputs.insert(at, handle)) == by_id(outputs).insert(handle.id@, handle),
{
    let longer = outputs.insert(at, handle);
    assert(longer.remove(at) =~= outputs);
    assert forall|i: int, j: int| 0 <= i < j < longer.len() implies longer[i].id@
        != longer[j].id@ by {
        let a = if i < at { i } else { i - 1 };
        let b = if j < at { j } else { j - 1 };
        if i == at {
            assert(outputs[b].id@ != handle.id@);
        } else if j == at {
            assert(outputs[a].id@ != handle.id@);
        } else {
            assert(outputs[a].id@ != outputs[b].id@);
        }
    }
    lemma_remove(longer, at);
    lemma_lookup(longer, at);
    assert(by_id(longer) =~= by_id(outputs).insert(handle.id@, handle));
}

/// The table of registered outputs. No two outputs share an identifier.
pub struct OutputMultiplexer {
    outputs: Vec<OutputHandle>,
}

impl OutputMultiplexer {
    #[verifier::type_invariant]
    spec fn distinct(&self) -> bool {
        distinct_ids(self.outputs@)
    }

    /// The registered outputs by their identifiers.
    pub closed spec fn view(&self) -> Map<Seq<char>, OutputHandle> {
        by_id(self.outputs@)
    }

    /// The number of registered outputs.
    pub closed spec fn count(&self) -> nat {
        self.outputs@.len()
    }

    /// A table with no output.
    pub fn new() -> (r: OutputMultiplexer)
        ensures
            r@ == Map::<Seq<char>, OutputHandle>::empty(),
            r.count() == 0,
    {
        let r = OutputMultiplexer { outputs: Vec::new() };
        assert(r@ =~= Map::<Seq<char>, OutputHandle>::empty());
        r
    }

    /// Moves the outputs out of the table, which is empty until they are put back.
    fn take(&mut self) -> (r: Vec<OutputHandle>)
        ensures
            r@ == old(self).outputs@,
            final(self).outputs@.len() == 0,
    {
        let mut outputs: Vec<OutputHandle> = Vec::new();
        core::mem::swap(&mut outputs, &mut self.outputs);
        outputs
    }

    /// Where the output named `id` stands in the table.
    fn find(&self, id: &String) -> (r: Option<usize>)
        ensures
            r matches Some(i) ==> i < self.outputs@.len() && self.outputs@[i as int].id@ == id@,
            r is None ==> !has_id(self.outputs@, id@),
    {
        let mut i: usize = 0;
        while i < self.outputs.len()
            invariant
                i <= self.outputs@.len(),
                forall|k: int| 0 <= k < i ==> self.outputs@[k].id@ != id@,
            decreases self.outputs@.len() - i,
        {
            if self.outputs[i].id == *id {
                return Some(i);
            }
            i = i + 1;
        }
        None
    }

    /// The number of registered outputs.
    pub fn len(&self) -> (r: usize)
        ensures
            r == self.count(),
    {
        self.outputs.len()
    }

    /// Whether an output named `id` is registered.
    pub fn contains(&self, id: &String) -> (r: bool)
        ensures
            r == self@.dom().contains(id@),
    {
        self.find(id).is_some()
    }

    /// The output named `id`, if it is registered.
    pub fn get(&self, id: &String) -> (r: Option<&OutputHandle>)
        ensures
            r is Some <==> self@.dom().contains(id@),
            r matches Some(handle) ==> *handle == self@[id@],
    {
        match self.find(id) {
            None => None,
            Some(i) => {
                proof {
                    use_type_invariant(self);
                    lemma_lookup(self.outputs@, i as int);
                }
                Some(&self.outputs[i])
            },
        }
    }

    /// Registers an output named `id` that shows `initial_scene`, and returns
    /// its handle. Fails, and leaves the table as it was, if the resolution
    /// is zero in a dimension or if the name is taken.
    pub fn register_output(
        &mut self,
        id: String,
        kind: OutputKind,
        resolution: Resolution,
        initial_scene: SceneNode,
    ) -> (r: Result<OutputHandle, RegistrationError>)
        ensures
            !resolution.valid() ==> r == Err::<OutputHandle, RegistrationError>(
                RegistrationError::InvalidResolution,
            ),
            resolution.valid() && old(self)@.dom().contains(id@) ==> r == Err::<
                OutputHandle,
                RegistrationError,
            >(RegistrationError::DuplicateId),
            resolution.valid() && !old(self)@.dom().contains(id@) ==> r == Ok::<
                OutputHandle,
                RegistrationError,
            >(
                (OutputHandle {
                    id,
                    kind,
                    resolution,
                    scene: initial_scene,
                    end_condition: EndCondition::Never,
                }),
            ),
            r is Err ==> final(self)@ == old(self)@ && final(self).count() == old(self).count(),
            r matches Ok(handle) ==> final(self)@ == old(self)@.insert(id@, handle) && final(self).count() == old(self).count() + 1,
    {
        if !resolution.is_valid() {
            return Err(RegistrationError::InvalidResolution);
        }
        if self.find(&id).is_some() {
            return Err(RegistrationError::DuplicateId);
        }
        let handle = OutputHandle {
            id,
            kind,
            resolution,
            scene: initial_scene,
            end_condition: EndCondition::Never,
        };
        let copy = handle.duplicate();
        proof {
            use_type_invariant(&*self);
            lemma_push(self.outputs@, handle);
        }
        let mut outputs: Vec<OutputHandle> = self.take();
        outputs.push(handle);
        self.outputs = outputs;
        Ok(copy)
    }

    /// Replaces the active scene of the output named `output_id`. Fails, and
    /// changes nothing, if no such output is registered.
    pub fn update_scene(&mut self, output_id: &String, new_scene: SceneNode) -> (r: Result<
        (),
        UnknownOutputError,
    >)
        ensures
            r is Ok <==> old(self)@.dom().contains(output_id@),
            r is Ok ==> final(self)@ == old(self)@.insert(
                output_id@,
                old(self)@[output_id@].showing(new_scene),
            ),
            r is Err ==> final(self)@ == old(self)@,
            final(self).count() == old(self).count(),
    {
        match self.find(output_id) {
            None => Err(UnknownOutputError),
            Some(i) => {
                proof {
                    use_type_invariant(&*self);
                    lemma_lookup(self.outputs@, i as int);
                    lemma_remove(self.outputs@, i as int);
                }
                let ghost before = self.outputs@;
                let mut outputs: Vec<OutputHandle> = self.take();
                let previous = outputs.remove(i);
                let updated = OutputHandle {
                    id: previous.id,
                    kind: previous.kind,
                    resolution: previous.resolution,
                    scene: new_scene,
                    end_condition: previous.end_condition,
                };
                proof {
                    assert(!has_id(outputs@, updated.id@)) by {
                        assert(!by_id(before).remove(before[i as int].id@).dom().contains(
                            updated.id@,
                        ));
                    }
                    lemma_insert_back(outputs@, i as int, updated);
                    assert(by_id(before).remove(updated.id@).insert(updated.id@, updated)
                        =~= by_id(before).insert(updated.id@, updated));
                }
                outputs.insert(i, updated);
                self.outputs = outputs;
                Ok(())
            },
        }
    }

    /// Unregisters the output named `output_id` and returns its handle.
    /// Fails, and changes nothing, if no such output is registered.
    pub fn unregister_output(&mut self, output_id: &String) -> (r: Result<
        OutputHandle,
        UnknownOutputError,
    >)
        ensures
            r is Ok <==> old(self)@.dom().contains(output_id@),
            r matches Ok(handle) ==> handle == old(self)@[output_id@] && final(self)@ == old(self)@.remove(output_id@) && final(self).count() == old(self).count() - 1,
            r is Err ==> final(self)@ == old(self)@ && final(self).count() == old(self).count(),
    {
        match self.find(output_id) {
            None => Err(UnknownOutputError),
            Some(i) => {
                proof {
                    use_type_invariant(&*self);
                    lemma_lookup(self.outputs@, i as int);
                    lemma_remove(self.outputs@, i as int);
                }
                let mut outputs: Vec<OutputHandle> = self.take();
                let removed = outputs.remove(i);
                self.outputs = outputs;
                Ok(removed)
            },
        }
    }
}

/// Registering, swapping or unregistering the output named `touched` leaves
/// every other output as it was: registered or not, and with the same handle.
pub proof fn lemma_other_outputs_undisturbed(
    table: Map<Seq<char>, OutputHandle>,
    touched: Seq<char>,
    handle: OutputHandle,
    other: Seq<char>,
)
    requires
        other != touched,
    ensures
        table.insert(touched, handle).dom().contains(other) == table.dom().contains(other),
        table.remove(touched).dom().contains(other) == table.dom().contains(other),
        table.dom().contains(other) ==> table.insert(touched, handle)[other] == table[other]
            && table.remove(touched)[other] == table[other],
{
}

} // verus!
