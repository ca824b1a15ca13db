//! What a whole setup comes to: every conversation with a driver ends, and a
//! driver that does not change its answers decides how.
use vstd::prelude::*;

use crate::context::{buffers_text, nonce_bytes, nonces_text, work_size};
use crate::context::{ContextModel, ContextSetup, ContextStage, NUM_BUFFERS};
use crate::driver::{Fault, MemoryInfo, Reply, WorkGroupInfo};
use crate::init::{context_start, device_text, no_device_text, no_platform_text};
use crate::init::{nonces_in_memory, stage_at};
use crate::init::{InitModel, Stage};
use crate::listing::InfoAnswer;
use crate::selector::selector;
use crate::selector::Selector;

verus! {

/// A device whose answers do not change.
pub struct DeviceModel {
    pub memory: MemoryInfo,
    pub vendor: InfoAnswer,
    pub name: InfoAnswer,
    pub compute_units: InfoAnswer,
    pub work_group: WorkGroupInfo,
}

/// A driver whose answers do not change: the devices of each platform.
pub struct DriverModel {
    pub platforms: Seq<Seq<DeviceModel>>,
}

impl DriverModel {
    /// The lists are no longer than a list can be.
    pub open spec fn valid(self) -> bool {
        &&& self.platforms.len() <= usize::MAX
        &&& forall|i: int|
            0 <= i < self.platforms.len() ==> (#[trigger] self.platforms[i]).len() <= usize::MAX
    }

    /// The driver's answer to what a setup at `stage` asks.
    pub open spec fn answer(self, stage: Stage) -> Reply {
        match stage {
            Stage::Platforms(_) => Reply::Platforms(self.platforms.len() as usize),
            Stage::Devices(s) => Reply::Devices(self.platforms[s.platform as int].len() as usize),
            Stage::Memory(s) => Reply::Memory(self.device(s).memory),
            Stage::Description { selector, .. } => Reply::Description {
                vendor: self.device(selector).vendor,
                name: self.device(selector).name,
                compute_units: self.device(selector).compute_units,
            },
            Stage::Context(setup) => match setup.stage {
                ContextStage::Platforms => Reply::Platforms(self.platforms.len() as usize),
                ContextStage::Devices => Reply::Devices(
                    self.platforms[setup.gpu_platform as int].len() as usize,
                ),
                ContextStage::WorkGroup => Reply::WorkGroup(
                    self.platforms[setup.gpu_platform as int][setup.gpu_id as int].work_group,
                ),
                _ => Reply::BuffersCreated,
            },
            _ => Reply::BuffersCreated,
        }
    }

    /// The device that `s` selects.
    pub open spec fn device(self, s: Selector) -> DeviceModel {
        self.platforms[s.platform as int][s.device as int]
    }

    /// Whether there is a device that `s` selects.
    pub open spec fn has(self, s: Selector) -> bool {
        s.platform < self.platforms.len() && s.device < self.platforms[s.platform as int].len()
    }

    /// What becomes of one selector: its context, or how the setup ends.
    pub open spec fn outcome(self, gpu: Seq<char>) -> Result<ContextModel, Stage> {
        match selector(gpu) {
            Err(error) => Err(Stage::Panicked(Fault::Selector(error))),
            Ok(s) => if !self.has(s) {
                Err(Stage::Exit)
            } else {
                match self.device(s).memory {
                    MemoryInfo::Other => Err(Stage::Panicked(Fault::MemoryInfo)),
                    MemoryInfo::GlobalMemSize(memory) => self.context_outcome(
                        s,
                        nonces_in_memory(memory),
                    ),
                }
            },
        }
    }

    /// What becomes of setting up a context for at most `max_nonces` nonces.
    pub open spec fn context_outcome(self, s: Selector, max_nonces: usize) -> Result<
        ContextModel,
        Stage,
    > {
        match self.device(s).work_group {
            WorkGroupInfo::Other => Err(Stage::Panicked(Fault::WorkGroupInfo)),
            WorkGroupInfo::WorkGroupSize(size) => {
                let worksize = work_size(size, max_nonces);
                if size == 0 {
                    Err(Stage::Panicked(Fault::WorkGroupSizeZero))
                } else if nonce_bytes(worksize) > usize::MAX {
                    Err(Stage::Panicked(Fault::BufferLength))
                } else if nonce_bytes(worksize) > isize::MAX {
                    Err(Stage::Panicked(Fault::HostBufferLength))
                } else {
                    Ok(ContextModel { work_group_size: size, worksize, mapping: false })
                }
            },
        }
    }

    /// What is printed for one selector.
    pub open spec fn text(self, gpu: Seq<char>, quiet: bool) -> Seq<char> {
        match selector(gpu) {
            Err(_) => Seq::empty(),
            Ok(s) => if s.platform >= self.platforms.len() {
                no_platform_text()
            } else if !self.has(s) {
                no_device_text()
            } else {
                match self.device(s).memory {
                    MemoryInfo::Other => Seq::empty(),
                    MemoryInfo::GlobalMemSize(memory) => self.description(s, memory, quiet)
                        + self.context_text(s, nonces_in_memory(memory)),
                }
            },
        }
    }

    /// The line that describes the device of one selector, where there is one
    /// that reports its memory.
    pub open spec fn line(self, gpu: Seq<char>) -> Seq<char> {
        match selector(gpu) {
            Err(_) => Seq::empty(),
            Ok(s) => if !self.has(s) {
                Seq::empty()
            } else {
                match self.device(s).memory {
                    MemoryInfo::Other => Seq::empty(),
                    MemoryInfo::GlobalMemSize(memory) => self.description(s, memory, false),
                }
            },
        }
    }

    /// The description of a device, unless `quiet` is set.
    pub open spec fn description(self, s: Selector, memory: u64, quiet: bool) -> Seq<char> {
        if quiet {
            Seq::empty()
        } else {
            device_text(
                memory,
                self.device(s).vendor,
                self.device(s).name,
                self.device(s).compute_units,
            )
        }
    }

    /// What is printed while the context is set up.
    pub open spec fn context_text(self, s: Selector, max_nonces: usize) -> Seq<char> {
        match self.device(s).work_group {
            WorkGroupInfo::Other => Seq::empty(),
            WorkGroupInfo::WorkGroupSize(size) => {
                let worksize = work_size(size, max_nonces);
                if size == 0 {
                    nonces_text(max_nonces)
                } else if nonce_bytes(worksize) > isize::MAX {
                    nonces_text(max_nonces) + buffers_text(worksize)
                } else {
                    nonces_text(max_nonces) + buffers_text(worksize) + "OK\n"@
                }
            },
        }
    }

    /// How the setup of the selectors from `position` on ends: with the first
    /// that gets no context, or when all have one.
    pub open spec fn end(self, gpus: Seq<Seq<char>>, position: nat) -> Stage
        decreases gpus.len() - position,
    {
        if position >= gpus.len() {
            Stage::Done
        } else {
            match self.outcome(gpus[position as int]) {
                Ok(_) => self.end(gpus, position + 1),
                Err(stage) => stage,
            }
        }
    }

    /// The contexts of the selectors from `position` on, up to the first that
    /// gets none.
    pub open spec fn contexts(self, gpus: Seq<Seq<char>>, position: nat) -> Seq<ContextModel>
        decreases gpus.len() - position,
    {
        if position >= gpus.len() {
            Seq::empty()
        } else {
            match self.outcome(gpus[position as int]) {
                Ok(context) => seq![context] + self.contexts(gpus, position + 1),
                Err(_) => Seq::empty(),
            }
        }
    }

    /// What is printed for the selectors from `position` on, up to the first
    /// that gets no context.
    pub open spec fn texts(self, gpus: Seq<Seq<char>>, quiet: bool, position: nat) -> Seq<char>
        decreases gpus.len() - position,
    {
        if position >= gpus.len() {
            Seq::empty()
        } else {
            match self.outcome(gpus[position as int]) {
                Ok(_) => self.text(gpus[position as int], quiet) + self.texts(
                    gpus,
                    quiet,
                    position + 1,
                ),
                Err(_) => self.text(gpus[position as int], quiet),
            }
        }
    }

    /// The quiet text for the selectors from `position` on, up to the first
    /// that gets no context, with the line of each device before its text.
    pub open spec fn texts_with_lines(self, gpus: Seq<Seq<char>>, position: nat) -> Seq<char>
        decreases gpus.len() - position,
    {
        if position >= gpus.len() {
            Seq::empty()
        } else {
            let gpu = gpus[position as int];
            match self.outcome(gpu) {
                Ok(_) => self.line(gpu) + self.text(gpu, true) + self.texts_with_lines(
                    gpus,
                    position + 1,
                ),
                Err(_) => self.line(gpu) + self.text(gpu, true),
            }
        }
    }
}

/// A setup after `driver` has answered it up to `steps` times.
pub open spec fn run(init: InitModel, driver: DriverModel, steps: nat) -> InitModel
    decreases steps,
{
    if steps == 0 || init.ended() {
        init
    } else {
        run(init.after(driver.answer(init.stage)), driver, (steps - 1) as nat)
    }
}

/// What a setup prints while `driver` answers it up to `steps` times.
pub open spec fn printed(init: InitModel, driver: DriverModel, steps: nat) -> Seq<char>
    decreases steps,
{
    if steps == 0 || init.ended() {
        Seq::empty()
    } else {
        let reply = driver.answer(init.stage);
        init.output(reply) + printed(init.after(reply), driver, (steps - 1) as nat)
    }
}

/// One answer of a driver.
spec fn once(init: InitModel, driver: DriverModel) -> InitModel {
    init.after(driver.answer(init.stage))
}

/// What is printed after one answer of a driver.
spec fn print_once(init: InitModel, driver: DriverModel) -> Seq<char> {
    init.output(driver.answer(init.stage))
}

/// A driver whose answers do not change answers what is asked.
pub proof fn law_driver_answers_what_is_asked(init: InitModel, driver: DriverModel)
    requires
        init.valid(),
        !init.ended(),
    ensures
        init.expects(driver.answer(init.stage)),
{
}

/// The number of answers that a setup may still wait for.
pub open spec fn answers_left(init: InitModel) -> int {
    let left = 8 * (init.gpus.len() - init.position);
    match init.stage {
        Stage::Platforms(_) => left,
        Stage::Devices(_) => left - 1,
        Stage::Memory(_) => left - 2,
        Stage::Description { .. } => left - 3,
        Stage::Context(setup) => match setup.stage {
            ContextStage::Platforms => left - 4,
            ContextStage::Devices => left - 5,
            ContextStage::WorkGroup => left - 6,
            _ => left - 7,
        },
        _ => 0,
    }
}

/// Whatever a driver answers, a setup ends after at most eight answers for
/// each selector: every answer leaves fewer to wait for, and there are some
/// left exactly as long as the setup has not ended.
pub proof fn law_every_setup_ends(init: InitModel, reply: Reply)
    requires
        init.valid(),
    ensures
        0 <= answers_left(init) <= 8 * init.gpus.len(),
        answers_left(init) == 0 <==> init.ended(),
        init.expects(reply) ==> answers_left(init.after(reply)) < answers_left(init),
{
}

/// Whatever a driver answers, a setup keeps the contexts that it has and adds
/// at most one; it does not touch its selectors; it stays with the selector at
/// hand until that has its context, and then turns to the next.
pub proof fn law_contexts_are_kept(init: InitModel, reply: Reply)
    requires
        init.valid(),
        init.expects(reply),
    ensures
        ({
            let next = init.after(reply);
            &&& next.valid()
            &&& next.gpus == init.gpus && next.quiet == init.quiet
            &&& next.contexts.take(init.contexts.len() as int) == init.contexts
            &&& next.position == init.position || next.position == init.position + 1
            &&& next.contexts.len() - init.contexts.len() == next.position - init.position
        }),
{
    let next = init.after(reply);
    assert(next.contexts.take(init.contexts.len() as int) =~= init.contexts);
    if let Stage::Context(setup) = init.stage {
        let set = setup.after(reply);
        if set.stage is Ready {
            crate::context::law_work_size_fits(
                set.model().work_group_size,
                set.max_nonces_per_cache,
            );
            assert forall|i: int| 0 <= i < next.contexts.len() implies (
            #[trigger] next.contexts[i]).valid() && !next.contexts[i].mapping by {
                if i < init.contexts.len() {
                    assert(init.contexts[i].valid());
                }
            }
        }
    }
}

/// All device buffers together never take up more than a quarter of a device's
/// memory, whatever its work-group size: three quarters are never exceeded.
pub proof fn law_buffers_fit_in_memory(work_group_size: usize, total_mem: u64)
    requires
        work_group_size > 0,
    ensures
        NUM_BUFFERS * nonce_bytes(work_size(work_group_size, nonces_in_memory(total_mem)))
            <= total_mem / 4,
        4 * (NUM_BUFFERS * nonce_bytes(work_size(work_group_size, nonces_in_memory(total_mem))))
            <= 3 * total_mem,
{
    let nonces: u64 = total_mem / 8 / 262144;
    assert((nonces as usize) <= nonces) by (bit_vector);
    crate::context::law_work_size_fits(work_group_size, nonces_in_memory(total_mem));
}

/// The buffers that a setup asks for, once a device has reported its memory,
/// take up at most a quarter of it in all.
pub proof fn law_requested_buffers_fit_in_memory(setup: ContextSetup, total_mem: u64)
    requires
        setup.valid(),
        setup.stage is Buffers,
        setup.max_nonces_per_cache == nonces_in_memory(total_mem),
    ensures
        setup.stage->Buffers_count == NUM_BUFFERS,
        setup.stage->Buffers_count * setup.stage->Buffers_len <= total_mem / 4,
{
    law_buffers_fit_in_memory(setup.stage->Buffers_work_group_size, total_mem);
}

/// From `a`, `steps` answers of `driver` lead to `b`, and `text` is printed on
/// the way.
spec fn leads(
    a: InitModel,
    driver: DriverModel,
    steps: nat,
    text: Seq<char>,
    b: InitModel,
) -> bool {
    forall|total: nat|
        #![trigger run(a, driver, total)]
        #![trigger printed(a, driver, total)]
        total >= steps ==> {
            &&& run(a, driver, total) == run(b, driver, (total - steps) as nat)
            &&& printed(a, driver, total) == text + printed(b, driver, (total - steps) as nat)
        }
}

proof fn lemma_leads_nowhere(a: InitModel, driver: DriverModel)
    ensures
        leads(a, driver, 0, Seq::empty(), a),
{
    assert forall|total: nat| #[trigger]
        printed(a, driver, total) == Seq::<char>::empty() + printed(a, driver, total) by {
        assert(Seq::<char>::empty() + printed(a, driver, total) =~= printed(a, driver, total));
    }
}

proof fn lemma_leads_once(a: InitModel, driver: DriverModel)
    requires
        !a.ended(),
    ensures
        leads(a, driver, 1, print_once(a, driver), once(a, driver)),
{
}

proof fn lemma_leads_on(
    a: InitModel,
    driver: DriverModel,
    first: nat,
    text1: Seq<char>,
    b: InitModel,
    second: nat,
    text2: Seq<char>,
    c: InitModel,
)
    requires
        leads(a, driver, first, text1, b),
        leads(b, driver, second, text2, c),
    ensures
        leads(a, driver, first + second, text1 + text2, c),
{
    assert forall|total: nat|
        #![trigger run(a, driver, total)]
        #![trigger printed(a, driver, total)]
        total >= first + second implies {
        &&& run(a, driver, total) == run(c, driver, (total - (first + second)) as nat)
        &&& printed(a, driver, total) == text1 + text2 + printed(
            c,
            driver,
            (total - (first + second)) as nat,
        )
    } by {
        let rest = (total - first) as nat;
        let p = printed(c, driver, (rest - second) as nat);
        assert(run(b, driver, rest) == run(c, driver, (rest - second) as nat));
        assert(text1 + (text2 + p) =~= text1 + text2 + p);
    }
}

/// Setting up a context takes at most four answers.
proof fn lemma_context(init: InitModel, driver: DriverModel, s: Selector, memory: u64) -> (next: (
    nat,
    InitModel,
))
    requires
        driver.valid(),
        driver.has(s),
        init.stage == Stage::Context(context_start(s, memory)),
    ensures
        next.0 <= 4,
        leads(init, driver, next.0, driver.context_text(s, nonces_in_memory(memory)), next.1),
        match driver.context_outcome(s, nonces_in_memory(memory)) {
            Ok(context) => next.1 == init.with_context(context),
            Err(stage) => next.1 == init.at(stage),
        },
{
    let max_nonces = nonces_in_memory(memory);
    assert(driver.platforms[s.platform as int].len() <= usize::MAX);
    let none = Seq::<char>::empty();
    let a = once(init, driver);
    lemma_leads_once(init, driver);
    let b = once(a, driver);
    lemma_leads_once(a, driver);
    lemma_leads_on(init, driver, 1, none, a, 1, none, b);
    let c = once(b, driver);
    lemma_leads_once(b, driver);
    lemma_leads_on(init, driver, 2, none + none, b, 1, print_once(b, driver), c);
    let text = none + none + print_once(b, driver);
    assert(text =~= print_once(b, driver));
    match driver.device(s).work_group {
        WorkGroupInfo::WorkGroupSize(size) if size > 0 && nonce_bytes(work_size(size, max_nonces))
            <= usize::MAX => {
            let d = once(c, driver);
            lemma_leads_once(c, driver);
            lemma_leads_on(init, driver, 3, text, c, 1, print_once(c, driver), d);
            assert(text + print_once(c, driver) =~= driver.context_text(s, max_nonces));
            (4nat, d)
        },
        _ => {
            assert(text =~= driver.context_text(s, max_nonces));
            (3nat, c)
        },
    }
}

/// Every selector takes at most eight answers.
proof fn lemma_selector(init: InitModel, driver: DriverModel) -> (next: (nat, InitModel))
    requires
        driver.valid(),
        init.position < init.gpus.len(),
        init.stage == stage_at(init.gpus, init.position),
    ensures
        next.0 <= 8,
        leads(
            init,
            driver,
            next.0,
            driver.text(init.gpus[init.position as int], init.quiet),
            next.1,
        ),
        match driver.outcome(init.gpus[init.position as int]) {
            Ok(context) => next.1 == init.with_context(context),
            Err(stage) => next.1 == init.at(stage) && next.1.ended(),
        },
{
    let gpu = init.gpus[init.position as int];
    let none = Seq::<char>::empty();
    match selector(gpu) {
        Err(_) => {
            lemma_leads_nowhere(init, driver);
            (0nat, init)
        },
        Ok(s) => {
            let a = once(init, driver);
            lemma_leads_once(init, driver);
            if s.platform >= driver.platforms.len() {
                (1nat, a)
            } else {
                assert(driver.platforms[s.platform as int].len() <= usize::MAX);
                let b = once(a, driver);
                lemma_leads_once(a, driver);
                lemma_leads_on(init, driver, 1, none, a, 1, print_once(a, driver), b);
                assert(none + print_once(a, driver) =~= print_once(a, driver));
                if !driver.has(s) {
                    (2nat, b)
                } else {
                    let c = once(b, driver);
                    lemma_leads_once(b, driver);
                    lemma_leads_on(init, driver, 2, none, b, 1, none, c);
                    assert(none + none =~= none);
                    match driver.device(s).memory {
                        MemoryInfo::Other => (3nat, c),
                        MemoryInfo::GlobalMemSize(memory) => {
                            let rest = driver.context_text(s, nonces_in_memory(memory));
                            if init.quiet {
                                let next = lemma_context(c, driver, s, memory);
                                lemma_leads_on(init, driver, 3, none, c, next.0, rest, next.1);
                                (3 + next.0, next.1)
                            } else {
                                let d = once(c, driver);
                                let line = print_once(c, driver);
                                lemma_leads_once(c, driver);
                                lemma_leads_on(init, driver, 3, none, c, 1, line, d);
                                assert(none + line =~= line);
                                let next = lemma_context(d, driver, s, memory);
                                lemma_leads_on(init, driver, 4, line, d, next.0, rest, next.1);
                                (4 + next.0, next.1)
                            }
                        },
                    }
                }
            }
        },
    }
}

/// From any selector on, a setup ends as the driver's answers to the remaining
/// selectors say.
proof fn lemma_rest_of_session(init: InitModel, driver: DriverModel, steps: nat)
    requires
        driver.valid(),
        init.position <= init.gpus.len(),
        init.stage == stage_at(init.gpus, init.position),
        steps >= 8 * (init.gpus.len() - init.position),
    ensures
        ({
            let last = run(init, driver, steps);
            &&& last.stage == driver.end(init.gpus, init.position)
            &&& last.contexts == init.contexts + driver.contexts(init.gpus, init.position)
            &&& printed(init, driver, steps) == driver.texts(
                init.gpus,
                init.quiet,
                init.position,
            )
        }),
    decreases init.gpus.len() - init.position,
{
    if init.position == init.gpus.len() {
        assert(init.contexts + driver.contexts(init.gpus, init.position) =~= init.contexts);
    } else {
        let gpu = init.gpus[init.position as int];
        let text = driver.text(gpu, init.quiet);
        let (taken, next) = lemma_selector(init, driver);
        let left = (steps - taken) as nat;
        assert(run(init, driver, steps) == run(next, driver, left));
        match driver.outcome(gpu) {
            Ok(context) => {
                lemma_rest_of_session(next, driver, left);
                assert(init.contexts.push(context) + driver.contexts(init.gpus, init.position + 1)
                    =~= init.contexts + (seq![context] + driver.contexts(
                    init.gpus,
                    init.position + 1,
                )));
            },
            Err(_) => {
                assert(init.contexts + Seq::<ContextModel>::empty() =~= init.contexts);
                assert(text + Seq::<char>::empty() =~= text);
            },
        }
    }
}

/// With a driver whose answers do not change, eight answers for each selector
/// suffice, and they settle everything: the setup ends with the first selector
/// that gets no context, or when all have one; the contexts are those of the
/// selectors before that, in order; and what was printed is what belongs to
/// each of them.
pub proof fn law_session(gpus: Seq<Seq<char>>, quiet: bool, driver: DriverModel, steps: nat)
    requires
        driver.valid(),
        steps >= 8 * gpus.len(),
    ensures
        run(InitModel::start(gpus, quiet), driver, steps).stage == driver.end(gpus, 0),
        run(InitModel::start(gpus, quiet), driver, steps).contexts == driver.contexts(gpus, 0),
        printed(InitModel::start(gpus, quiet), driver, steps) == driver.texts(gpus, quiet, 0),
{
    let init = InitModel::start(gpus, quiet);
    lemma_rest_of_session(init, driver, steps);
    assert(init.contexts + driver.contexts(gpus, 0) =~= driver.contexts(gpus, 0));
}

/// Where every selector gets a context, the setup ends with one context for
/// each, in the order of the selectors.
pub proof fn law_all_selected_devices_get_a_context(
    gpus: Seq<Seq<char>>,
    quiet: bool,
    driver: DriverModel,
    steps: nat,
)
    requires
        driver.valid(),
        steps >= 8 * gpus.len(),
        forall|i: int| 0 <= i < gpus.len() ==> driver.outcome(#[trigger] gpus[i]) is Ok,
    ensures
        ({
            let last = run(InitModel::start(gpus, quiet), driver, steps);
            &&& last.stage == Stage::Done
            &&& last.contexts.len() == gpus.len()
            &&& forall|i: int|
                0 <= i < gpus.len() ==> #[trigger] last.contexts[i] == driver.outcome(gpus[i])->Ok_0
        }),
{
    law_session(gpus, quiet, driver, steps);
    lemma_all_ok(gpus, driver, 0);
}

proof fn lemma_all_ok(gpus: Seq<Seq<char>>, driver: DriverModel, position: nat)
    requires
        position <= gpus.len(),
        forall|i: int| position <= i < gpus.len() ==> driver.outcome(#[trigger] gpus[i]) is Ok,
    ensures
        driver.end(gpus, position) == Stage::Done,
        driver.contexts(gpus, position).len() == gpus.len() - position,
        forall|i: int|
            0 <= i < gpus.len() - position ==> #[trigger] driver.contexts(gpus, position)[i]
                == driver.outcome(gpus[position + i])->Ok_0,
    decreases gpus.len() - position,
{
    if position < gpus.len() {
        lemma_all_ok(gpus, driver, position + 1);
        assert(driver.outcome(gpus[position as int]) is Ok);
        let rest = driver.contexts(gpus, position + 1);
        assert forall|i: int| 0 <= i < gpus.len() - position implies #[trigger] driver.contexts(
            gpus,
            position,
        )[i] == driver.outcome(gpus[position + i])->Ok_0 by {
            if i > 0 {
                assert(driver.contexts(gpus, position)[i] == rest[i - 1]);
            }
        }
    }
}

/// For one selector, the loud text is the line of its device, put before the
/// quiet text.
pub proof fn law_device_line_comes_first(driver: DriverModel, gpu: Seq<char>)
    ensures
        driver.text(gpu, false) == driver.line(gpu) + driver.text(gpu, true),
{
    assert(driver.text(gpu, false) =~= driver.line(gpu) + driver.text(gpu, true));
}

proof fn lemma_texts_with_lines(driver: DriverModel, gpus: Seq<Seq<char>>, position: nat)
    ensures
        driver.texts(gpus, false, position) == driver.texts_with_lines(gpus, position),
    decreases gpus.len() - position,
{
    if position < gpus.len() {
        law_device_line_comes_first(driver, gpus[position as int]);
        lemma_texts_with_lines(driver, gpus, position + 1);
    }
}

/// Whether a setup is quiet changes neither how it ends nor its contexts. What
/// it prints differs by the lines of the devices alone: selector by selector,
/// the loud setup prints the device's line and then what the quiet one prints.
pub proof fn law_quiet_leaves_out_device_lines_only(
    gpus: Seq<Seq<char>>,
    driver: DriverModel,
    steps: nat,
)
    requires
        driver.valid(),
        steps >= 8 * gpus.len(),
    ensures
        run(InitModel::start(gpus, true), driver, steps).stage == run(
            InitModel::start(gpus, false),
            driver,
            steps,
        ).stage,
        run(InitModel::start(gpus, true), driver, steps).contexts == run(
            InitModel::start(gpus, false),
            driver,
            steps,
        ).contexts,
        printed(InitModel::start(gpus, true), driver, steps) == driver.texts(gpus, true, 0),
        printed(InitModel::start(gpus, false), driver, steps) == driver.texts_with_lines(gpus, 0),
{
    law_session(gpus, true, driver, steps);
    law_session(gpus, false, driver, steps);
    lemma_texts_with_lines(driver, gpus, 0);
}

} // verus!
