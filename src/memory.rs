//! The synthetic-call subsystem of one emulator: its window and the
//! registry from call numbers to handlers.
use crate::encoder::SVC_MAX;
use crate::handler::{default_stub_step, stub_label, Arm64Svc};
use crate::window::{SvcError, SvcMemRegion, SvcWindow, WindowView, allocate_step};
use vstd::prelude::*;

verus! {

/// Default guest address of the window.
pub const SVC_BASE: u64 = 0xfffe_0000;

/// Default size in bytes of the window.
pub const SVC_SIZE: u64 = 0x1_0000;

/// Default last number issued before the first registration; real system
/// calls use the immediates below it.
pub const SVC_NUMBER_OFFSET: u32 = 0x200;

/// What an emulator fixes for its synthetic calls when it is built.
#[derive(Debug, Clone, Copy, PartialEq, Eq, Structural)]
pub struct SvcConfig {
    /// Guest address of the window.
    pub base: u64,
    /// Size in bytes of the window.
    pub size: u64,
    /// Call numbers must stay below this bound.
    pub max_number: u32,
    /// The first number issued is the one after this.
    pub number_offset: u32,
    /// Whether default stubs carry their handler's name in their label.
    pub record_labels: bool,
}

impl SvcConfig {
    /// A usable window, and room for at least one number above the offset
    /// within what `svc` can encode.
    pub open spec fn valid(&self) -> bool {
        &&& WindowView::valid_bounds(self.base, self.size)
        &&& self.number_offset < self.max_number <= SVC_MAX
    }
}

impl Default for SvcConfig {
    fn default() -> (r: SvcConfig)
        ensures
            r == (SvcConfig {
                base: SVC_BASE,
                size: SVC_SIZE,
                max_number: SVC_MAX,
                number_offset: SVC_NUMBER_OFFSET,
                record_labels: false,
            }),
    {
        SvcConfig {
            base: SVC_BASE,
            size: SVC_SIZE,
            max_number: SVC_MAX,
            number_offset: SVC_NUMBER_OFFSET,
            record_labels: false,
        }
    }
}

/// The state of the subsystem: the window, the bounds of the number space,
/// the last number issued, and one slot per issued number (empty when the
/// handler's registration failed).
pub struct MemoryView<H> {
    pub window: WindowView,
    pub max_number: u32,
    pub number_offset: u32,
    pub last_number: u32,
    pub slots: Seq<Option<H>>,
}

impl<H> MemoryView<H> {
    pub open spec fn wf(&self) -> bool {
        &&& self.window.wf()
        &&& self.number_offset <= self.last_number < self.max_number <= SVC_MAX
        &&& self.slots.len() == self.last_number - self.number_offset
    }

    /// Whether `n` is a number issued so far.
    pub open spec fn issued(&self, n: u32) -> bool {
        self.number_offset < n <= self.last_number
    }

    /// The handlers registered so far, by call number.
    pub open spec fn registry(&self) -> Map<u32, H> {
        Map::new(
            |n: u32| self.issued(n) && self.slots[n - self.number_offset - 1] is Some,
            |n: u32| self.slots[n - self.number_offset - 1]->Some_0,
        )
    }
}

/// One call of `register_svc` with handler `h`, from `pre` to `post`,
/// answering `r`. When the number space is used up nothing changes.
/// Otherwise the next number is issued whatever happens next; the handler
/// is stored under it only if its registration succeeded, and its
/// registration may only add to the window.
pub open spec fn register_step<H>(
    pre: MemoryView<H>,
    h: H,
    r: Result<u64, SvcError>,
    post: MemoryView<H>,
) -> bool {
    if pre.last_number + 1 >= pre.max_number {
        r == Err::<u64, SvcError>(SvcError::NumbersExhausted) && post == pre
    } else {
        &&& post.last_number == pre.last_number + 1
        &&& post.number_offset == pre.number_offset
        &&& post.max_number == pre.max_number
        &&& post.window.extends(pre.window)
        &&& match r {
            Ok(addr) => {
                &&& post.registry() == pre.registry().insert(post.last_number, h)
                &&& pre.window.cursor <= addr < post.window.cursor
            },
            Err(_) => post.registry() == pre.registry(),
        }
    }
}

/// The window and the call-number registry of one emulator.
pub struct SvcMemory<H> {
    window: SvcWindow,
    max_number: u32,
    number_offset: u32,
    arm_svc_number: u32,
    svc_map: Vec<Option<H>>,
}

impl<H> View for SvcMemory<H> {
    type V = MemoryView<H>;

    closed spec fn view(&self) -> MemoryView<H> {
        MemoryView {
            window: self.window@,
            max_number: self.max_number,
            number_offset: self.number_offset,
            last_number: self.arm_svc_number,
            slots: self.svc_map@,
        }
    }
}

impl<H> SvcMemory<H> {
    /// A fresh subsystem over the window and number space of `config`;
    /// refused unless the configuration is usable. Mapping the window into
    /// guest memory is left to the caller.
    pub fn new(config: SvcConfig) -> (r: Result<SvcMemory<H>, SvcError>)
        ensures
            r is Ok <==> config.valid(),
            r matches Err(e) ==> e == SvcError::BadConfig,
            r matches Ok(m) ==> {
                &&& m@.wf()
                &&& m@.window.base == config.base
                &&& m@.window.size == config.size
                &&& m@.window.cursor == config.base
                &&& m@.window.record_labels == config.record_labels
                &&& m@.window.regions.len() == 0
                &&& m@.max_number == config.max_number
                &&& m@.number_offset == config.number_offset
                &&& m@.last_number == config.number_offset
                &&& m@.registry() == Map::<u32, H>::empty()
            },
    {
        if config.number_offset >= config.max_number || config.max_number > SVC_MAX {
            return Err(SvcError::BadConfig);
        }
        match SvcWindow::new(config.base, config.size, config.record_labels) {
            Err(e) => Err(e),
            Ok(window) => {
                let m = SvcMemory {
                    window,
                    max_number: config.max_number,
                    number_offset: config.number_offset,
                    arm_svc_number: config.number_offset,
                    svc_map: Vec::new(),
                };
                assert(m@.registry() =~= Map::<u32, H>::empty());
                Ok(m)
            },
        }
    }

    /// Issues the next call number, lets `svc` plant its entry point for it
    /// and, if that succeeds, keeps `svc` under that number and returns the
    /// entry point's address. Numbers are never issued twice, even when the
    /// registration fails.
    pub fn register_svc<C>(&mut self, svc: H) -> (r: Result<u64, SvcError>) where H: Arm64Svc<C>
        requires
            old(self)@.wf(),
        ensures
            final(self)@.wf(),
            register_step(old(self)@, svc, r, final(self)@),
            svc.plants_default_stub() && old(self)@.last_number + 1 < old(self)@.max_number
                ==> default_stub_step(
                old(self)@.window,
                final(self)@.last_number,
                stub_label(svc.label_name(), old(self)@.window.record_labels),
                r,
                final(self)@.window,
            ),
    {
        if self.arm_svc_number >= self.max_number - 1 {
            return Err(SvcError::NumbersExhausted);
        }
        let ghost pre = self@;
        self.arm_svc_number = self.arm_svc_number + 1;
        let number = self.arm_svc_number;
        let r = svc.on_register(&mut self.window, number);
        match r {
            Ok(addr) => {
                self.svc_map.push(Some(svc));
                assert(self@.registry() =~= pre.registry().insert(number, svc));
                Ok(addr)
            },
            Err(e) => {
                self.svc_map.push(None);
                assert(self@.registry() =~= pre.registry());
                Err(e)
            },
        }
    }

    /// The handler registered under `number`, if any. Nothing is the
    /// answer for every number not issued by a successful registration,
    /// real system call numbers included.
    pub fn get_svc(&self, number: u32) -> (r: Option<&H>)
        requires
            self@.wf(),
        ensures
            r is Some <==> self@.registry().contains_key(number),
            r matches Some(h) ==> *h == self@.registry()[number],
    {
        if number <= self.number_offset || number > self.arm_svc_number {
            return None;
        }
        let i: usize = (number - self.number_offset - 1) as usize;
        match &self.svc_map[i] {
            Some(h) => Some(h),
            None => None,
        }
    }

    /// Hands out the next `size` bytes of the window, rounded up to the
    /// allocation unit, as a region labelled `label`; see
    /// `SvcWindow::allocate`.
    pub fn allocate(&mut self, size: usize, label: &str) -> (r: Result<SvcMemRegion, SvcError>)
        requires
            old(self)@.wf(),
        ensures
            final(self)@.wf(),
            r is Ok <==> (size > 0 && crate::window::align_up(size as nat)
                <= old(self)@.window.remaining()),
            r matches Err(e) ==> {
                &&& final(self)@ == old(self)@
                &&& e == (if size == 0 {
                    SvcError::EmptyRequest
                } else {
                    SvcError::WindowExhausted
                })
            },
            r matches Ok(region) ==> {
                &&& allocate_step(old(self)@.window, size as nat, label@, region, final(self)@.window)
                &&& final(self)@.registry() == old(self)@.registry()
                &&& final(self)@.last_number == old(self)@.last_number
            },
    {
        let r = self.window.allocate(size, label);
        proof {
            if r is Ok {
                assert(self@.registry() =~= old(self)@.registry());
            }
        }
        r
    }

    /// The window, for reading its regions and planted bytes.
    pub fn window(&self) -> (r: &SvcWindow)
        ensures
            r@ == self@.window,
    {
        &self.window
    }

    /// The last call number issued.
    pub fn last_number(&self) -> (r: u32)
        ensures
            r == self@.last_number,
    {
        self.arm_svc_number
    }
}

/// `states` is a run of `register_svc` calls: call `k` registers
/// `handlers[k]`, answers `results[k]`, and leads from `states[k]` to
/// `states[k + 1]`.
pub open spec fn register_run<H>(
    states: Seq<MemoryView<H>>,
    handlers: Seq<H>,
    results: Seq<Result<u64, SvcError>>,
) -> bool {
    &&& states.len() == handlers.len() + 1
    &&& results.len() == handlers.len()
    &&& forall|k: int|
        0 <= k < handlers.len() ==> register_step(
            #[trigger] states[k],
            handlers[k],
            results[k],
            states[k + 1],
        )
}

/// Along a run of registrations the last issued number never goes down.
pub proof fn lemma_last_number_monotonic<H>(
    states: Seq<MemoryView<H>>,
    handlers: Seq<H>,
    results: Seq<Result<u64, SvcError>>,
    i: int,
    j: int,
)
    requires
        register_run(states, handlers, results),
        0 <= i <= j < states.len(),
    ensures
        states[i].last_number <= states[j].last_number,
        states[i].number_offset == states[j].number_offset,
        states[i].max_number == states[j].max_number,
    decreases j - i,
{
    if i < j {
        lemma_last_number_monotonic(states, handlers, results, i, j - 1);
        assert(register_step(states[j - 1], handlers[j - 1], results[j - 1], states[j]));
    }
}

/// Registrations on a fresh subsystem issue the numbers right after the
/// offset, one per call and in order: the `k`-th call issues
/// `number_offset + k`, so no number is issued twice. This holds while the
/// number space lasts.
pub proof fn lemma_numbers_issued<H>(
    states: Seq<MemoryView<H>>,
    handlers: Seq<H>,
    results: Seq<Result<u64, SvcError>>,
)
    requires
        register_run(states, handlers, results),
        states[0].last_number == states[0].number_offset,
        states[0].number_offset + handlers.len() < states[0].max_number,
    ensures
        forall|k: int|
            0 <= k < states.len() ==> #[trigger] states[k].last_number == states[0].number_offset
                + k,
        forall|i: int, j: int|
            #![trigger states[i], states[j]]
            0 <= i < j < states.len() ==> states[i].last_number < states[j].last_number,
{
    assert forall|k: int| 0 <= k < states.len() implies #[trigger] states[k].last_number
        == states[0].number_offset + k by {
        lemma_numbers_issued_upto(states, handlers, results, k);
    }
}

proof fn lemma_numbers_issued_upto<H>(
    states: Seq<MemoryView<H>>,
    handlers: Seq<H>,
    results: Seq<Result<u64, SvcError>>,
    k: int,
)
    requires
        register_run(states, handlers, results),
        states[0].last_number == states[0].number_offset,
        states[0].number_offset + handlers.len() < states[0].max_number,
        0 <= k < states.len(),
    ensures
        states[k].last_number == states[0].number_offset + k,
        states[k].number_offset == states[0].number_offset,
        states[k].max_number == states[0].max_number,
    decreases k,
{
    if k > 0 {
        lemma_numbers_issued_upto(states, handlers, results, k - 1);
        assert(register_step(states[k - 1], handlers[k - 1], results[k - 1], states[k]));
    }
}

/// After a run of registrations, every handler whose registration
/// succeeded is found under the number issued for it, and a number is
/// found only if it was registered before the run or by a successful call
/// of the run.
pub proof fn lemma_registered_found<H>(
    states: Seq<MemoryView<H>>,
    handlers: Seq<H>,
    results: Seq<Result<u64, SvcError>>,
)
    requires
        register_run(states, handlers, results),
    ensures
        forall|k: int|
            0 <= k < handlers.len() && (#[trigger] results[k]) is Ok ==> {
                &&& states.last().registry().contains_key(states[k + 1].last_number)
                &&& states.last().registry()[states[k + 1].last_number] == handlers[k]
            },
        forall|n: u32|
            #[trigger] states.last().registry().contains_key(n) ==> states[0].registry().contains_key(
                n,
            ) || exists|k: int|
                0 <= k < handlers.len() && (#[trigger] results[k]) is Ok && states[k
                    + 1].last_number == n,
{
    lemma_registered_found_upto(states, handlers, results, handlers.len() as int);
}

proof fn lemma_registered_found_upto<H>(
    states: Seq<MemoryView<H>>,
    handlers: Seq<H>,
    results: Seq<Result<u64, SvcError>>,
    j: int,
)
    requires
        register_run(states, handlers, results),
        0 <= j < states.len(),
    ensures
        forall|k: int|
            0 <= k < j && (#[trigger] results[k]) is Ok ==> {
                &&& states[j].registry().contains_key(states[k + 1].last_number)
                &&& states[j].registry()[states[k + 1].last_number] == handlers[k]
            },
        forall|n: u32|
            #[trigger] states[j].registry().contains_key(n) ==> states[0].registry().contains_key(n)
                || exists|k: int|
                0 <= k < j && (#[trigger] results[k]) is Ok && states[k + 1].last_number == n,
    decreases j,
{
    if j > 0 {
        let i = j - 1;
        lemma_registered_found_upto(states, handlers, results, i);
        assert(register_step(states[i], handlers[i], results[i], states[j]));
        assert forall|k: int| 0 <= k < j && (#[trigger] results[k]) is Ok implies {
            &&& states[j].registry().contains_key(states[k + 1].last_number)
            &&& states[j].registry()[states[k + 1].last_number] == handlers[k]
        } by {
            if k < i {
                lemma_last_number_monotonic(states, handlers, results, k + 1, i);
            }
        }
        assert forall|n: u32| #[trigger] states[j].registry().contains_key(n) implies states[0].registry().contains_key(n)
            || exists|k: int|
            0 <= k < j && (#[trigger] results[k]) is Ok && states[k + 1].last_number == n by {
            if !states[i].registry().contains_key(n) {
                assert(0 <= i < j && results[i] is Ok && states[i + 1].last_number == n);
            }
        }
    }
}

} // verus!
