//! Setting up the selected devices, one after the other.
use std::sync::Arc;

use vstd::prelude::*;
use vstd::string::*;

use crate::context::{ContextModel, ContextSetup, ContextStage, GpuContext};
use crate::context::{NONCE_SIZE, NUM_BUFFERS};
use crate::driver::{Fault, MemoryInfo, Reply};
use crate::listing::InfoAnswer;
use crate::selector::parse_selector;
use crate::selector::selector;
use crate::selector::{Selector, SelectorError};
use crate::text::append_decimal;
use crate::text::decimal;

verus! {

/// How far the setup has come: what it waits for, or how it ended.
#[derive(Clone, Copy, Debug, PartialEq, Eq, Structural)]
pub enum Stage {
    /// The platforms are to be counted.
    Platforms(Selector),
    /// The devices of the selected platform are to be counted.
    Devices(Selector),
    /// The selected device is to be asked for the size of its memory.
    Memory(Selector),
    /// The selected device, with `memory` bytes, is to be asked for its vendor,
    /// its name and the number of its compute units.
    Description { selector: Selector, memory: u64 },
    /// A context is being set up on the selected device.
    Context(ContextSetup),
    /// Every selected device has its context.
    Done,
    /// The program is to end, without an error status.
    Exit,
    /// The setup cannot go on, and the program is to panic.
    Panicked(Fault),
}

/// The setup of the selected devices: those done so far and the one at hand.
pub struct GpuInit<'a> {
    /// The selectors.
    pub gpus: &'a Vec<String>,
    /// Whether devices are not to be described.
    pub quiet: bool,
    /// The position of the selector at hand.
    pub position: usize,
    /// How far the selector at hand has come.
    pub stage: Stage,
    /// The contexts of the selectors before the one at hand.
    pub contexts: Vec<Arc<GpuContext>>,
}

/// What the setup of the selected devices is, in mathematical terms.
#[verifier::ext_equal]
pub struct InitModel {
    pub gpus: Seq<Seq<char>>,
    pub quiet: bool,
    pub position: nat,
    pub stage: Stage,
    pub contexts: Seq<ContextModel>,
}

/// The number of nonces for which all device buffers together take up a
/// quarter of a device's memory, counted in whole eighths: the quarter is
/// shared out among the buffers, and each share holds whole nonces.
pub open spec fn nonces_in_memory(total_mem: u64) -> usize {
    (2 * (total_mem as int / 8) / NUM_BUFFERS as int / NONCE_SIZE as int) as usize
}

/// Computes how many nonces to keep in a device with `total_mem` bytes.
pub fn max_nonces(total_mem: u64) -> (nonces: usize)
    ensures
        nonces == nonces_in_memory(total_mem),
        total_mem / 2097152 <= usize::MAX ==> {
            &&& 2 * 262144 * nonces <= 2 * (total_mem as int / 8)
            &&& 2 * (total_mem as int / 8) < 2 * 262144 * (nonces + 1)
        },
{
    proof {
        law_nonces_are_the_most_that_fit(total_mem);
        vstd::arithmetic::div_mod::lemma_div_denominator(
            2 * (total_mem as int / 8),
            NUM_BUFFERS as int,
            NONCE_SIZE as int,
        );
    }
    ((total_mem / 8 * 2) / (NUM_BUFFERS * NONCE_SIZE)) as usize
}

/// What is printed where there is no such platform.
pub open spec fn no_platform_text() -> Seq<char> {
    "Error: Selected OpenCL platform doesn't exist.\nShutting down...\n"@
}

/// What is printed where there is no such device.
pub open spec fn no_device_text() -> Seq<char> {
    "Error: Selected OpenCL device doesn't exist\nShutting down...\n"@
}

/// The line that describes a device with `memory` bytes.
pub open spec fn device_text(
    memory: u64,
    vendor: InfoAnswer,
    name: InfoAnswer,
    compute_units: InfoAnswer,
) -> Seq<char> {
    "GPU: "@ + vendor.shown() + " - "@ + name.shown() + " [RAM="@ + decimal(
        (memory / 1024 / 1024) as nat,
    ) + "MiB, Cores="@ + compute_units.shown() + "]\n"@
}

/// The setup of a context on the selected device, at its start.
pub open spec fn context_start(selector: Selector, memory: u64) -> ContextSetup {
    ContextSetup {
        gpu_platform: selector.platform,
        gpu_id: selector.device,
        max_nonces_per_cache: nonces_in_memory(memory),
        mapping: false,
        stage: ContextStage::Platforms,
    }
}

/// Where the setup stands when it comes to the selector at `position`.
pub open spec fn stage_at(gpus: Seq<Seq<char>>, position: nat) -> Stage {
    if position >= gpus.len() {
        Stage::Done
    } else {
        match selector(gpus[position as int]) {
            Ok(selector) => Stage::Platforms(selector),
            Err(error) => Stage::Panicked(Fault::Selector(error)),
        }
    }
}

impl InitModel {
    /// The setup before anything was asked.
    pub open spec fn start(gpus: Seq<Seq<char>>, quiet: bool) -> InitModel {
        InitModel { gpus, quiet, position: 0, stage: stage_at(gpus, 0), contexts: Seq::empty() }
    }

    /// Whether nothing is waited for.
    pub open spec fn ended(self) -> bool {
        self.stage is Done || self.stage is Exit || self.stage is Panicked
    }

    /// Whether `reply` is an answer to what the setup waits for.
    pub open spec fn expects(self, reply: Reply) -> bool {
        match self.stage {
            Stage::Platforms(_) => reply is Platforms,
            Stage::Devices(_) => reply is Devices,
            Stage::Memory(_) => reply is Memory,
            Stage::Description { .. } => reply is Description,
            Stage::Context(setup) => setup.expects(reply),
            _ => false,
        }
    }

    /// The device that the setup is about to ask or is working on.
    pub open spec fn subject(self) -> Option<Selector> {
        match self.stage {
            Stage::Platforms(s) => Some(s),
            Stage::Devices(s) => Some(s),
            Stage::Memory(s) => Some(s),
            Stage::Description { selector, .. } => Some(selector),
            Stage::Context(setup) => Some(
                Selector { platform: setup.gpu_platform, device: setup.gpu_id },
            ),
            _ => None,
        }
    }

    /// There is a context for each selector before the one at hand, and the
    /// setup is done exactly when all have one; whatever is asked concerns the
    /// selector at hand; a quiet setup asks for no description; no context is
    /// mapped.
    pub open spec fn valid(self) -> bool {
        &&& self.contexts.len() == self.position
        &&& self.position <= self.gpus.len()
        &&& self.stage is Done <==> self.position == self.gpus.len()
        &&& forall|i: int|
            0 <= i < self.contexts.len() ==> (#[trigger] self.contexts[i]).valid()
                && !self.contexts[i].mapping
        &&& self.quiet ==> !(self.stage is Description)
        &&& self.subject() matches Some(s) ==> selector(self.gpus[self.position as int]) == Ok::<
            Selector,
            SelectorError,
        >(s)
        &&& self.stage matches Stage::Context(setup) ==> setup.valid() && !setup.mapping && !(
        setup.stage is Ready) && !(setup.stage is Panicked)
    }

    /// The same setup at another stage.
    pub open spec fn at(self, stage: Stage) -> InitModel {
        InitModel { stage, ..self }
    }

    /// The setup with a context for the selector at hand, at the next one.
    pub open spec fn with_context(self, context: ContextModel) -> InitModel {
        InitModel {
            position: self.position + 1,
            stage: stage_at(self.gpus, self.position + 1),
            contexts: self.contexts.push(context),
            ..self
        }
    }

    /// The setup after `reply`.
    pub open spec fn after(self, reply: Reply) -> InitModel {
        match (self.stage, reply) {
            (Stage::Platforms(selector), Reply::Platforms(count)) => if selector.platform >= count {
                self.at(Stage::Exit)
            } else {
                self.at(Stage::Devices(selector))
            },
            (Stage::Devices(selector), Reply::Devices(count)) => if selector.device >= count {
                self.at(Stage::Exit)
            } else {
                self.at(Stage::Memory(selector))
            },
            (Stage::Memory(_), Reply::Memory(MemoryInfo::Other)) => self.at(
                Stage::Panicked(Fault::MemoryInfo),
            ),
            (Stage::Memory(selector), Reply::Memory(MemoryInfo::GlobalMemSize(memory))) => if
            self.quiet {
                self.at(Stage::Context(context_start(selector, memory)))
            } else {
                self.at(Stage::Description { selector, memory })
            },
            (Stage::Description { selector, memory }, Reply::Description { .. }) => self.at(
                Stage::Context(context_start(selector, memory)),
            ),
            (Stage::Context(setup), reply) => {
                let next = setup.after(reply);
                match next.stage {
                    ContextStage::Ready { .. } => self.with_context(next.model()),
                    ContextStage::Panicked(fault) => self.at(Stage::Panicked(fault)),
                    _ => self.at(Stage::Context(next)),
                }
            },
            _ => self,
        }
    }

    /// What is printed after `reply`.
    pub open spec fn output(self, reply: Reply) -> Seq<char> {
        match (self.stage, reply) {
            (Stage::Platforms(selector), Reply::Platforms(count)) => if selector.platform >= count {
                no_platform_text()
            } else {
                Seq::empty()
            },
            (Stage::Devices(selector), Reply::Devices(count)) => if selector.device >= count {
                no_device_text()
            } else {
                Seq::empty()
            },
            (
                Stage::Description { selector, memory },
                Reply::Description { vendor, name, compute_units },
            ) => device_text(memory, vendor, name, compute_units),
            (Stage::Context(setup), reply) => setup.output(reply),
            _ => Seq::empty(),
        }
    }
}

/// The selectors as texts.
pub open spec fn selectors(gpus: Seq<String>) -> Seq<Seq<char>> {
    gpus.map_values(|gpu: String| gpu@)
}

/// The contexts as models.
pub open spec fn models(contexts: Seq<Arc<GpuContext>>) -> Seq<ContextModel> {
    contexts.map_values(|context: Arc<GpuContext>| (*context)@)
}

impl<'a> View for GpuInit<'a> {
    type V = InitModel;

    open spec fn view(&self) -> InitModel {
        InitModel {
            gpus: selectors(self.gpus@),
            quiet: self.quiet,
            position: self.position as nat,
            stage: self.stage,
            contexts: models(self.contexts@),
        }
    }
}

/// The stage at which the selector at `position` is taken up.
fn take_up(gpus: &Vec<String>, position: usize) -> (stage: Stage)
    requires
        position <= gpus@.len(),
    ensures
        stage == stage_at(selectors(gpus@), position as nat),
{
    if position == gpus.len() {
        return Stage::Done;
    }
    assert(selectors(gpus@)[position as int] == gpus@[position as int]@);
    match parse_selector(gpus[position].as_str()) {
        Ok(selector) => Stage::Platforms(selector),
        Err(error) => Stage::Panicked(Fault::Selector(error)),
    }
}

/// Starts setting up the devices that `gpus` selects. Unless `quiet` is set,
/// each is described.
pub fn gpu_init(gpus: &Vec<String>, quiet: bool) -> (init: GpuInit<'_>)
    ensures
        init@ == InitModel::start(selectors(gpus@), quiet),
        init.wf(),
{
    let init = GpuInit {
        gpus,
        quiet,
        position: 0,
        stage: take_up(gpus, 0),
        contexts: Vec::new(),
    };
    assert(init@ =~= InitModel::start(selectors(gpus@), quiet));
    init
}

impl<'a> GpuInit<'a> {
    /// The setup is as its model says, and every context is well formed.
    pub open spec fn wf(&self) -> bool {
        &&& self@.valid()
        &&& forall|i: int|
            0 <= i < self.contexts@.len() ==> (#[trigger] self.contexts@[i]).wf()
    }

    /// Whether `reply` answers what the setup waits for.
    pub fn awaits(&self, reply: &Reply) -> (answers: bool)
        ensures
            answers == self@.expects(*reply),
    {
        match (self.stage, reply) {
            (Stage::Platforms(_), Reply::Platforms(_)) => true,
            (Stage::Devices(_), Reply::Devices(_)) => true,
            (Stage::Memory(_), Reply::Memory(_)) => true,
            (Stage::Description { .. }, Reply::Description { .. }) => true,
            (Stage::Context(setup), reply) => setup.awaits(reply),
            _ => false,
        }
    }

    /// Takes in the driver's answer. The text is to be printed before the
    /// setup goes on.
    pub fn step(&mut self, reply: Reply) -> (text: String)
        requires
            old(self).wf(),
            old(self)@.expects(reply),
        ensures
            final(self).wf(),
            final(self)@ == old(self)@.after(reply),
            text@ == old(self)@.output(reply),
    {
        let mut text: String = String::new();
        match (self.stage, reply) {
            (Stage::Platforms(selector), Reply::Platforms(count)) => {
                if selector.platform >= count {
                    text.append(
                        "Error: Selected OpenCL platform doesn't exist.\nShutting down...\n",
                    );
                    self.stage = Stage::Exit;
                } else {
                    self.stage = Stage::Devices(selector);
                }
            },
            (Stage::Devices(selector), Reply::Devices(count)) => {
                if selector.device >= count {
                    text.append("Error: Selected OpenCL device doesn't exist\nShutting down...\n");
                    self.stage = Stage::Exit;
                } else {
                    self.stage = Stage::Memory(selector);
                }
            },
            (Stage::Memory(selector), Reply::Memory(info)) => match info {
                MemoryInfo::Other => {
                    self.stage = Stage::Panicked(Fault::MemoryInfo);
                },
                MemoryInfo::GlobalMemSize(memory) => {
                    if self.quiet {
                        self.stage = start_context(selector, memory);
                    } else {
                        self.stage = Stage::Description { selector, memory };
                    }
                },
            },
            (
                Stage::Description { selector, memory },
                Reply::Description { vendor, name, compute_units },
            ) => {
                describe(&mut text, memory, &vendor, &name, &compute_units);
                self.stage = start_context(selector, memory);
            },
            (Stage::Context(setup), reply) => {
                let (next, printed): (ContextSetup, String) = setup.step(reply);
                text = printed;
                match next.stage {
                    ContextStage::Ready { .. } => self.add_context(next),
                    ContextStage::Panicked(fault) => {
                        self.stage = Stage::Panicked(fault);
                    },
                    _ => {
                        self.stage = Stage::Context(next);
                    },
                }
            },
            _ => {},
        }
        assert(self@ =~= old(self)@.after(reply));
        text
    }

    /// Keeps the context that `setup` made and turns to the next selector.
    fn add_context(&mut self, setup: ContextSetup)
        requires
            old(self).wf(),
            old(self)@.position < old(self)@.gpus.len(),
            setup.valid(),
            !setup.mapping,
            setup.stage is Ready,
        ensures
            final(self).wf(),
            final(self)@ == old(self)@.with_context(setup.model()),
    {
        let context: GpuContext = setup.finish();
        self.contexts.push(Arc::new(context));
        assert(self.position < self.gpus.len());
        self.position = self.position + 1;
        self.stage = take_up(self.gpus, self.position);
        assert(self@ =~= old(self)@.with_context(setup.model()));
    }
}

/// Starts the setup of a context on the selected device.
fn start_context(selector: Selector, memory: u64) -> (stage: Stage)
    ensures
        stage == Stage::Context(context_start(selector, memory)),
{
    Stage::Context(
        GpuContext::new(selector.platform, selector.device, max_nonces(memory), false),
    )
}

/// Appends the line that describes a device.
fn describe(
    text: &mut String,
    memory: u64,
    vendor: &InfoAnswer,
    name: &InfoAnswer,
    compute_units: &InfoAnswer,
)
    requires
        old(text)@ == Seq::<char>::empty(),
    ensures
        final(text)@ == device_text(memory, *vendor, *name, *compute_units),
{
    text.append("GPU: ");
    text.append(vendor.text());
    text.append(" - ");
    text.append(name.text());
    text.append(" [RAM=");
    append_decimal(text, memory / 1024 / 1024);
    text.append("MiB, Cores=");
    text.append(compute_units.text());
    text.append("]\n");
    assert(text@ =~= device_text(memory, *vendor, *name, *compute_units));
}

/// The number of nonces is the largest for which two buffers of 262144 bytes
/// for each nonce fit in a quarter of the memory, counted in whole eighths.
/// Where `usize` cannot hold that number, its low bits are taken.
pub proof fn law_nonces_are_the_most_that_fit(total_mem: u64)
    ensures
        ({
            let quarter = 2 * (total_mem as int / 8);
            let n = nonces_in_memory(total_mem);
            &&& quarter < 2 * 262144 * (usize::MAX + 1) ==> 2 * 262144 * n <= quarter < 2 * 262144
                * (n + 1)
            &&& n == (total_mem / 2097152) as usize
        }),
{
    let quarter = 2 * (total_mem as int / 8);
    let k = total_mem / 2097152;
    assert(quarter / 2 == total_mem as int / 8);
    assert(total_mem / 8 / 262144 == total_mem / 2097152) by (bit_vector);
    assert(quarter / 2 / 262144 == k);
}

/// The description of a device shows its memory in whole MiB: `mib` of them fit
/// in it, and one more does not.
pub proof fn law_device_text(
    memory: u64,
    mib: nat,
    vendor: InfoAnswer,
    name: InfoAnswer,
    compute_units: InfoAnswer,
)
    requires
        mib * 1048576 <= memory < (mib + 1) * 1048576,
    ensures
        device_text(memory, vendor, name, compute_units) == "GPU: "@ + vendor.shown() + " - "@
            + name.shown() + " [RAM="@ + decimal(mib) + "MiB, Cores="@ + compute_units.shown()
            + "]\n"@,
{
    assert(memory / 1024 / 1024 == memory / 1048576) by (bit_vector);
    assert(memory as int / 1048576 == mib);
}

/// The models of the selectors and of the contexts are those of the elements,
/// one for one, and the model of a setup leaves nothing out.
pub proof fn law_setup_is_its_model(init: GpuInit<'_>)
    ensures
        init@.gpus.len() == init.gpus@.len(),
        forall|i: int| 0 <= i < init.gpus@.len() ==> #[trigger] init@.gpus[i] == init.gpus@[i]@,
        init@.contexts.len() == init.contexts@.len(),
        forall|i: int|
            0 <= i < init.contexts@.len() ==> #[trigger] init@.contexts[i] == (
            *init.contexts@[i])@,
        init@.quiet == init.quiet,
        init@.position == init.position,
        init@.stage == init.stage,
        init.wf() ==> init@.valid(),
        init.wf() ==> forall|i: int|
            0 <= i < init.contexts@.len() ==> (#[trigger] init.contexts@[i]).wf(),
{
}

/// Where a selector is taken up, it is read; after the last, the setup is done.
pub proof fn law_selector_is_taken_up(gpus: Seq<Seq<char>>, position: nat)
    ensures
        position >= gpus.len() <==> stage_at(gpus, position) == Stage::Done,
        position < gpus.len() ==> match selector(gpus[position as int]) {
            Ok(s) => stage_at(gpus, position) == Stage::Platforms(s),
            Err(e) => stage_at(gpus, position) == Stage::Panicked(Fault::Selector(e)),
        },
{
}

/// A setup starts with its first selector and without contexts.
pub proof fn law_setup_starts(gpus: Seq<Seq<char>>, quiet: bool)
    ensures
        ({
            let init = InitModel::start(gpus, quiet);
            &&& init.gpus == gpus
            &&& init.quiet == quiet
            &&& init.position == 0
            &&& init.contexts.len() == 0
            &&& gpus.len() == 0 <==> init.stage == Stage::Done
            &&& gpus.len() > 0 ==> match selector(gpus[0]) {
                Ok(s) => init.stage == Stage::Platforms(s),
                Err(e) => init.stage == Stage::Panicked(Fault::Selector(e)),
            }
        }),
{
}

/// Each stage waits for one kind of answer, and a setup waits for none exactly
/// when it is done, exits or panics.
pub proof fn law_setup_waits_for(init: InitModel, reply: Reply)
    ensures
        init.expects(reply) <==> {
            ||| init.stage is Platforms && reply is Platforms
            ||| init.stage is Devices && reply is Devices
            ||| init.stage is Memory && reply is Memory
            ||| init.stage is Description && reply is Description
            ||| init.stage is Context && {
                let stage = init.stage->Context_0.stage;
                ||| stage is Platforms && reply is Platforms
                ||| stage is Devices && reply is Devices
                ||| stage is WorkGroup && reply is WorkGroup
                ||| stage is Buffers && reply is BuffersCreated
            }
        },
        init.ended() <==> init.stage is Done || init.stage is Exit || init.stage is Panicked,
{
}

/// The selected platform, and then the device, have to be among those that are
/// counted; otherwise the program says so and exits. Nothing else changes.
pub proof fn law_setup_positions(init: InitModel, s: Selector, count: usize)
    ensures
        init.stage == Stage::Platforms(s) ==> {
            let next = init.after(Reply::Platforms(count));
            let text = init.output(Reply::Platforms(count));
            &&& s.platform < count ==> next == (InitModel { stage: Stage::Devices(s), ..init })
                && text.len() == 0
            &&& s.platform >= count ==> next == (InitModel { stage: Stage::Exit, ..init }) && text
                == "Error: Selected OpenCL platform doesn't exist.\nShutting down...\n"@
        },
        init.stage == Stage::Devices(s) ==> {
            let next = init.after(Reply::Devices(count));
            let text = init.output(Reply::Devices(count));
            &&& s.device < count ==> next == (InitModel { stage: Stage::Memory(s), ..init })
                && text.len() == 0
            &&& s.device >= count ==> next == (InitModel { stage: Stage::Exit, ..init }) && text
                == "Error: Selected OpenCL device doesn't exist\nShutting down...\n"@
        },
{
}

/// Once a device has reported its memory, a quiet setup opens a context with the
/// nonces that fit in it, and any other first asks for the description. Another
/// answer ends the setup. Nothing is printed.
pub proof fn law_setup_memory(init: InitModel, s: Selector, memory: u64)
    requires
        init.stage == Stage::Memory(s),
    ensures
        ({
            let reply = Reply::Memory(MemoryInfo::GlobalMemSize(memory));
            let next = init.after(reply);
            &&& init.output(reply).len() == 0
            &&& init.quiet ==> {
                &&& next.stage is Context
                &&& next.stage->Context_0.gpu_platform == s.platform
                &&& next.stage->Context_0.gpu_id == s.device
                &&& next.stage->Context_0.max_nonces_per_cache == (memory / 2097152) as usize
                &&& !next.stage->Context_0.mapping
                &&& next.stage->Context_0.stage is Platforms
                &&& next == (InitModel { stage: next.stage, ..init })
            }
            &&& !init.quiet ==> next == (InitModel {
                stage: Stage::Description { selector: s, memory },
                ..init
            })
        }),
        init.after(Reply::Memory(MemoryInfo::Other)) == (InitModel {
            stage: Stage::Panicked(Fault::MemoryInfo),
            ..init
        }),
        init.output(Reply::Memory(MemoryInfo::Other)).len() == 0,
{
    law_nonces_are_the_most_that_fit(memory);
}

/// Once a device has described itself, its line is printed, with its memory in
/// whole MiB, and a context with the nonces that fit in its memory is opened.
pub proof fn law_setup_description(
    init: InitModel,
    s: Selector,
    memory: u64,
    mib: nat,
    vendor: InfoAnswer,
    name: InfoAnswer,
    compute_units: InfoAnswer,
)
    requires
        init.stage == (Stage::Description { selector: s, memory }),
        mib * 1048576 <= memory < (mib + 1) * 1048576,
    ensures
        ({
            let reply = Reply::Description { vendor, name, compute_units };
            let next = init.after(reply);
            &&& init.output(reply) == "GPU: "@ + vendor.shown() + " - "@ + name.shown() + " [RAM="@
                + decimal(mib) + "MiB, Cores="@ + compute_units.shown() + "]\n"@
            &&& next.stage is Context
            &&& next.stage->Context_0.gpu_platform == s.platform
            &&& next.stage->Context_0.gpu_id == s.device
            &&& next.stage->Context_0.max_nonces_per_cache == (memory / 2097152) as usize
            &&& !next.stage->Context_0.mapping
            &&& next.stage->Context_0.stage is Platforms
            &&& next == (InitModel { stage: next.stage, ..init })
        }),
{
    law_nonces_are_the_most_that_fit(memory);
    law_device_text(memory, mib, vendor, name, compute_units);
}

/// While a context is set up, its answers and its texts are passed through. Once
/// it is ready it joins the others, at their end, and the next selector is taken
/// up; where it panics, so does the whole.
pub proof fn law_setup_context(init: InitModel, setup: ContextSetup, reply: Reply)
    requires
        init.stage == Stage::Context(setup),
    ensures
        init.output(reply) == setup.output(reply),
        ({
            let next = init.after(reply);
            let ready = setup.after(reply);
            match ready.stage {
                ContextStage::Ready { .. } => {
                    &&& next.gpus == init.gpus && next.quiet == init.quiet
                    &&& next.position == init.position + 1
                    &&& next.contexts == init.contexts.push(ready.model())
                    &&& next.position >= init.gpus.len() <==> next.stage == Stage::Done
                    &&& next.position < init.gpus.len() ==> match selector(
                        init.gpus[next.position as int],
                    ) {
                        Ok(s) => next.stage == Stage::Platforms(s),
                        Err(e) => next.stage == Stage::Panicked(Fault::Selector(e)),
                    }
                },
                ContextStage::Panicked(fault) => next == (InitModel {
                    stage: Stage::Panicked(fault),
                    ..init
                }),
                _ => next == (InitModel { stage: Stage::Context(ready), ..init }),
            }
        }),
{
}

} // verus!
