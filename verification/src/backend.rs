//! The adapter to a native enumeration backend.
//!
//! The backend owns a collection of device records. It fills the collection,
//! hands the records out one at a time and frees the collection when told to.
//! Those calls cross a foreign-function boundary and are not made here. This
//! module decides: after each call of the backend it says which call comes
//! next, and it keeps the records converted so far. Whoever makes the calls
//! follows a [`DrainStep`]: a `Pop` asks for one more record, a `Release` asks
//! for the collection to be freed, after which the outcome can be taken.
//! The outcome can be had in no other way, so no enumeration ends without
//! its release.

use crate::pci::{
    device_views, error_from_code, error_of_code, PciDevice, PciDeviceView, PciEnumerationError,
    STATUS_SUCCESS,
};
use vstd::prelude::*;
use vstd::utf8::{decode_utf8, valid_utf8};

verus! {

/// A device record as the native backend hands it out. The label holds the
/// bytes of the backend's null-terminated text, without the terminator.
#[derive(Debug, Clone)]
pub struct NativeDevice {
    pub domain: u32,
    pub bus: u8,
    pub device: u8,
    pub function: u8,
    pub label: Vec<u8>,
    pub vendor_id: u16,
    pub device_id: u16,
    pub subsys_device_id: u16,
    pub subsys_vendor_id: u16,
    pub dev_class: u8,
    pub subclass: u8,
    pub programming_interface: u8,
    pub revision_id: u8,
}

/// The mathematical content of a [`NativeDevice`].
pub struct NativeDeviceView {
    pub domain: u32,
    pub bus: u8,
    pub device: u8,
    pub function: u8,
    pub label: Seq<u8>,
    pub vendor_id: u16,
    pub device_id: u16,
    pub subsys_device_id: u16,
    pub subsys_vendor_id: u16,
    pub dev_class: u8,
    pub subclass: u8,
    pub programming_interface: u8,
    pub revision_id: u8,
}

impl View for NativeDevice {
    type V = NativeDeviceView;

    open spec fn view(&self) -> NativeDeviceView {
        NativeDeviceView {
            domain: self.domain,
            bus: self.bus,
            device: self.device,
            function: self.function,
            label: self.label@,
            vendor_id: self.vendor_id,
            device_id: self.device_id,
            subsys_device_id: self.subsys_device_id,
            subsys_vendor_id: self.subsys_vendor_id,
            dev_class: self.dev_class,
            subclass: self.subclass,
            programming_interface: self.programming_interface,
            revision_id: self.revision_id,
        }
    }
}

/// The device that a native record stands for: every number is copied, and
/// the label is the text that its bytes encode in UTF-8.
pub open spec fn converted(device: NativeDeviceView) -> PciDeviceView {
    PciDeviceView {
        domain: device.domain,
        bus: device.bus,
        device: device.device,
        function: device.function,
        label: decode_utf8(device.label),
        vendor_id: device.vendor_id,
        device_id: device.device_id,
        subsys_device_id: device.subsys_device_id,
        subsys_vendor_id: device.subsys_vendor_id,
        class: device.dev_class,
        subclass: device.subclass,
        programming_interface: device.programming_interface,
        revision_id: device.revision_id,
    }
}

/// Calls `String::from_utf8`, which checks that the bytes are well-formed
/// UTF-8 and, where they are, gives the text they encode without changing a
/// byte. The contract says so over vstd's definition of UTF-8; the reason
/// that `from_utf8` gives for a refusal is dropped.
#[verifier::external_body]
fn string_from_utf8(bytes: Vec<u8>) -> (text: Option<String>)
    ensures
        text is Some <==> valid_utf8(bytes@),
        text matches Some(s) ==> s@ == decode_utf8(bytes@),
{
    String::from_utf8(bytes).ok()
}

/// Converts one native record. A label that is not well-formed UTF-8 is
/// refused with [`PciEnumerationError::ReadError`]: no character is dropped
/// or replaced.
pub fn conv_c_pci_device(device: NativeDevice) -> (result: Result<PciDevice, PciEnumerationError>)
    ensures
        match result {
            Ok(converted_device) => valid_utf8(device@.label) && converted_device@ == converted(
                device@,
            ),
            Err(error) => !valid_utf8(device@.label) && error == PciEnumerationError::ReadError,
        },
{
    match string_from_utf8(device.label) {
        Some(label) => Ok(
            PciDevice {
                domain: device.domain,
                bus: device.bus,
                device: device.device,
                function: device.function,
                label,
                vendor_id: device.vendor_id,
                device_id: device.device_id,
                subsys_device_id: device.subsys_device_id,
                subsys_vendor_id: device.subsys_vendor_id,
                class: device.dev_class,
                subclass: device.subclass,
                programming_interface: device.programming_interface,
                revision_id: device.revision_id,
            },
        ),
        None => Err(PciEnumerationError::ReadError),
    }
}

/// A drain in progress: the records converted so far, in the order in which
/// the backend handed them out.
pub struct Draining {
    devices: Vec<PciDevice>,
}

/// An enumeration whose outcome is settled and whose collection is still to
/// be freed.
pub struct Releasing {
    outcome: Result<Vec<PciDevice>, PciEnumerationError>,
}

/// What to ask of the backend next.
pub enum DrainStep {
    /// Remove one record from the collection and report it with
    /// [`Draining::after_pop`].
    Pop(Draining),
    /// Free the collection, then take the outcome with
    /// [`Releasing::after_release`].
    Release(Releasing),
}

/// The mathematical content of a [`DrainStep`].
pub enum DrainStepView {
    Pop(Seq<PciDeviceView>),
    Release(Result<Seq<PciDeviceView>, PciEnumerationError>),
}

impl View for Draining {
    type V = Seq<PciDeviceView>;

    closed spec fn view(&self) -> Seq<PciDeviceView> {
        device_views(self.devices@)
    }
}

impl View for Releasing {
    type V = Result<Seq<PciDeviceView>, PciEnumerationError>;

    closed spec fn view(&self) -> Result<Seq<PciDeviceView>, PciEnumerationError> {
        match self.outcome {
            Ok(devices) => Ok(device_views(devices@)),
            Err(error) => Err(error),
        }
    }
}

impl View for DrainStep {
    type V = DrainStepView;

    open spec fn view(&self) -> DrainStepView {
        match *self {
            DrainStep::Pop(draining) => DrainStepView::Pop(draining@),
            DrainStep::Release(releasing) => DrainStepView::Release(releasing@),
        }
    }
}

/// The step that follows the filling of the collection, which ended with
/// `status` and left `len` records: a failed filling is followed by the
/// release and gives the error of its status, an empty collection is
/// released at once, any other is drained.
pub open spec fn step_after_populate(status: int, len: nat) -> DrainStepView {
    if status != STATUS_SUCCESS {
        DrainStepView::Release(Err(error_of_code(status)))
    } else if len == 0 {
        DrainStepView::Release(Ok(Seq::empty()))
    } else {
        DrainStepView::Pop(Seq::empty())
    }
}

/// The step that follows the removal of `device`, which left `remaining`
/// records, when `collected` had been converted before: a record that cannot
/// be converted ends the drain with an error, the last record ends it with
/// the whole list, any other is followed by one more removal.
pub open spec fn step_after_pop(
    collected: Seq<PciDeviceView>,
    device: NativeDeviceView,
    remaining: nat,
) -> DrainStepView {
    if !valid_utf8(device.label) {
        DrainStepView::Release(Err(PciEnumerationError::ReadError))
    } else if remaining == 0 {
        DrainStepView::Release(Ok(collected.push(converted(device))))
    } else {
        DrainStepView::Pop(collected.push(converted(device)))
    }
}

/// Decides what follows the filling of the native collection. `status` is
/// what the filling returned, `len` the number of records that the
/// collection reports afterwards.
pub fn after_populate(status: i32, len: usize) -> (step: DrainStep)
    ensures
        step@ == step_after_populate(status as int, len as nat),
{
    if status != STATUS_SUCCESS {
        DrainStep::Release(Releasing { outcome: Err(error_from_code(status)) })
    } else {
        let devices: Vec<PciDevice> = Vec::new();
        assert(device_views(devices@) =~= Seq::<PciDeviceView>::empty());
        if len == 0 {
            DrainStep::Release(Releasing { outcome: Ok(devices) })
        } else {
            DrainStep::Pop(Draining { devices })
        }
    }
}

impl Draining {
    /// Decides what follows the removal of one record. `device` is the
    /// record that the backend handed out, `remaining` the number of records
    /// that the collection reports afterwards.
    pub fn after_pop(self, device: NativeDevice, remaining: usize) -> (step: DrainStep)
        ensures
            step@ == step_after_pop(self@, device@, remaining as nat),
    {
        let mut devices = self.devices;
        match conv_c_pci_device(device) {
            Ok(converted_device) => {
                assert(device_views(devices@.push(converted_device)) =~= device_views(
                    devices@,
                ).push(converted_device@));
                devices.push(converted_device);
                if remaining == 0 {
                    DrainStep::Release(Releasing { outcome: Ok(devices) })
                } else {
                    DrainStep::Pop(Draining { devices })
                }
            },
            Err(error) => DrainStep::Release(Releasing { outcome: Err(error) }),
        }
    }
}

impl Releasing {
    /// Hands out the outcome of the enumeration once the collection has been
    /// freed: the whole list, or the error that ended the enumeration.
    pub fn after_release(self) -> (result: Result<Vec<PciDevice>, PciEnumerationError>)
        ensures
            match result {
                Ok(devices) => self@ == Ok::<Seq<PciDeviceView>, PciEnumerationError>(
                    device_views(devices@),
                ),
                Err(error) => self@ == Err::<Seq<PciDeviceView>, PciEnumerationError>(error),
            },
    {
        self.outcome
    }
}

/// What an enumeration does to the backend, told by a model of the native
/// collection: how many records it removed, how often it freed the
/// collection, whether it ever asked an empty collection for a record, what
/// the collection held when it was freed, and the outcome.
pub struct DrainRun {
    pub pops: nat,
    pub releases: nat,
    pub popped_empty: bool,
    pub left: Seq<NativeDeviceView>,
    pub outcome: Option<Result<Seq<PciDeviceView>, PciEnumerationError>>,
}

/// The run that follows `step` on a collection that holds `stack`, the
/// record that is removed next being the last. Each removal is answered with
/// the last record and the number of records left.
pub open spec fn run_from(step: DrainStepView, stack: Seq<NativeDeviceView>) -> DrainRun
    decreases stack.len(),
{
    match step {
        DrainStepView::Release(outcome) => DrainRun {
            pops: 0,
            releases: 1,
            popped_empty: false,
            left: stack,
            outcome: Some(outcome),
        },
        DrainStepView::Pop(collected) => {
            if stack.len() == 0 {
                DrainRun { pops: 1, releases: 0, popped_empty: true, left: stack, outcome: None }
            } else {
                let rest = run_from(
                    step_after_pop(collected, stack.last(), (stack.len() - 1) as nat),
                    stack.drop_last(),
                );
                DrainRun { pops: rest.pops + 1, ..rest }
            }
        },
    }
}

/// The run of a whole enumeration whose filling ended with `status` and
/// left `stack` in the collection.
pub open spec fn enumeration_run(status: int, stack: Seq<NativeDeviceView>) -> DrainRun {
    run_from(step_after_populate(status, stack.len()), stack)
}

/// Every label of `stack` is well-formed UTF-8.
pub open spec fn all_labels_valid(stack: Seq<NativeDeviceView>) -> bool {
    forall|i: int| 0 <= i < stack.len() ==> valid_utf8(#[trigger] stack[i].label)
}

/// The devices that the records of `stack` stand for, in the order in which
/// the backend hands the records out: the last record first.
pub open spec fn drained(stack: Seq<NativeDeviceView>) -> Seq<PciDeviceView> {
    Seq::new(stack.len(), |i: int| converted(stack[stack.len() - 1 - i]))
}

proof fn lemma_run_drains(collected: Seq<PciDeviceView>, stack: Seq<NativeDeviceView>)
    requires
        all_labels_valid(stack),
        stack.len() > 0,
    ensures
        run_from(DrainStepView::Pop(collected), stack).pops == stack.len(),
        run_from(DrainStepView::Pop(collected), stack).releases == 1,
        !run_from(DrainStepView::Pop(collected), stack).popped_empty,
        run_from(DrainStepView::Pop(collected), stack).left.len() == 0,
        run_from(DrainStepView::Pop(collected), stack).outcome == Some(
            Ok::<Seq<PciDeviceView>, PciEnumerationError>(collected + drained(stack)),
        ),
    decreases stack.len(),
{
    let rest = stack.drop_last();
    let next = collected.push(converted(stack.last()));
    let after = step_after_pop(collected, stack.last(), rest.len());
    if rest.len() == 0 {
        assert(run_from(after, rest).pops == 0);
        assert(collected + drained(stack) =~= next);
    } else {
        lemma_run_drains(next, rest);
        assert(collected + drained(stack) =~= next + drained(rest));
    }
}

proof fn lemma_run_releases_once(step: DrainStepView, stack: Seq<NativeDeviceView>)
    requires
        step is Pop ==> stack.len() > 0,
    ensures
        run_from(step, stack).releases == 1,
        !run_from(step, stack).popped_empty,
        run_from(step, stack).pops + run_from(step, stack).left.len() == stack.len(),
        run_from(step, stack).outcome is Some,
        run_from(step, stack).outcome matches Some(Ok(devices)) ==> step matches DrainStepView::Pop(
            collected,
        ) ==> run_from(step, stack).left.len() == 0 && devices.len() == collected.len()
            + stack.len(),
    decreases stack.len(),
{
    match step {
        DrainStepView::Release(_) => {},
        DrainStepView::Pop(collected) => {
            let after = step_after_pop(collected, stack.last(), (stack.len() - 1) as nat);
            lemma_run_releases_once(after, stack.drop_last());
        },
    }
}

/// Drain completeness. Where the filling succeeds and every label is
/// well-formed, an enumeration over a collection of N records removes
/// exactly N records (none where N is 0), never asks an empty collection for
/// a record, leaves the collection empty, frees it exactly once, and returns
/// the N devices in the order in which the backend handed the records out.
pub proof fn lemma_drain_is_complete(stack: Seq<NativeDeviceView>)
    requires
        all_labels_valid(stack),
    ensures
        enumeration_run(STATUS_SUCCESS as int, stack).pops == stack.len(),
        enumeration_run(STATUS_SUCCESS as int, stack).releases == 1,
        !enumeration_run(STATUS_SUCCESS as int, stack).popped_empty,
        enumeration_run(STATUS_SUCCESS as int, stack).left.len() == 0,
        enumeration_run(STATUS_SUCCESS as int, stack).outcome == Some(
            Ok::<Seq<PciDeviceView>, PciEnumerationError>(drained(stack)),
        ),
{
    if stack.len() == 0 {
        assert(drained(stack) =~= Seq::<PciDeviceView>::empty());
    } else {
        lemma_run_drains(Seq::empty(), stack);
    }
}

/// Release on the error path. Where the filling fails, an enumeration
/// removes no record, frees the collection exactly once with all that the
/// backend had put in it, and returns the error of the status.
pub proof fn lemma_failed_populate_is_released(status: int, stack: Seq<NativeDeviceView>)
    requires
        status != STATUS_SUCCESS,
    ensures
        enumeration_run(status, stack).pops == 0,
        enumeration_run(status, stack).releases == 1,
        !enumeration_run(status, stack).popped_empty,
        enumeration_run(status, stack).left == stack,
        enumeration_run(status, stack).outcome == Some(
            Err::<Seq<PciDeviceView>, PciEnumerationError>(error_of_code(status)),
        ),
{
}

/// Release on every path. Whatever the status and the records, an
/// enumeration frees the collection exactly once, never asks an empty
/// collection for a record, and ends with an outcome. Where the outcome is a
/// list, the collection was drained to the end and the list has one device
/// for each record: no enumeration returns a shortened list.
pub proof fn lemma_released_exactly_once(status: int, stack: Seq<NativeDeviceView>)
    ensures
        enumeration_run(status, stack).releases == 1,
        !enumeration_run(status, stack).popped_empty,
        enumeration_run(status, stack).pops <= stack.len(),
        enumeration_run(status, stack).pops + enumeration_run(status, stack).left.len()
            == stack.len(),
        enumeration_run(status, stack).outcome is Some,
        enumeration_run(status, stack).outcome matches Some(Ok(devices)) ==> devices.len()
            == stack.len() && enumeration_run(status, stack).left.len() == 0,
{
    lemma_run_releases_once(step_after_populate(status, stack.len()), stack);
}

proof fn lemma_run_never_ends_with_success(step: DrainStepView, stack: Seq<NativeDeviceView>)
    requires
        step != DrainStepView::Release(Err(PciEnumerationError::Success)),
    ensures
        run_from(step, stack).outcome != Some(
            Err::<Seq<PciDeviceView>, PciEnumerationError>(PciEnumerationError::Success),
        ),
    decreases stack.len(),
{
    if let DrainStepView::Pop(collected) = step {
        if stack.len() > 0 {
            lemma_run_never_ends_with_success(
                step_after_pop(collected, stack.last(), (stack.len() - 1) as nat),
                stack.drop_last(),
            );
        }
    }
}

/// Success is no failure. Whatever the status and the records, an
/// enumeration does not end with [`PciEnumerationError::Success`] as its
/// error.
pub proof fn lemma_outcome_is_never_success(status: int, stack: Seq<NativeDeviceView>)
    ensures
        enumeration_run(status, stack).outcome != Some(
            Err::<Seq<PciDeviceView>, PciEnumerationError>(PciEnumerationError::Success),
        ),
{
    lemma_run_never_ends_with_success(step_after_populate(status, stack.len()), stack);
}

} // verus!
