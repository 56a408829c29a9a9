//! The protocol that host logic implements to be callable from the guest,
//! the default stub it plants on registration, and the hook-listener
//! contract of the symbol resolver.
use crate::encoder::{assemble_stub, stub_bytes, SVC_MAX, STUB_SIZE};
use crate::window::{allocate_step, SvcError, SvcWindow, WindowView};
use core::marker::PhantomData;
use vstd::prelude::*;
use vstd::string::StringExecFns;

verus! {

/// anyhow's error type, carried through handler results unopened.
#[verifier::external_type_specification]
#[verifier::external_body]
pub struct ExAnyhowError(anyhow::Error);

/// Label of a default stub: the handler's name is kept only when the window
/// records labels.
pub open spec fn stub_label(name: Seq<char>, record_labels: bool) -> Seq<char> {
    if record_labels {
        "Arm64Svc."@ + name
    } else {
        "Arm64Svc"@
    }
}

/// One planting of the default stub for `number`, labelled `label`, from
/// window `pre` to `post`, answering `r`. It succeeds exactly when eight
/// bytes are left; then the stub goes at the old cursor in one new region,
/// exactly those eight bytes change, and the address is returned. A refusal
/// changes nothing.
pub open spec fn default_stub_step(
    pre: WindowView,
    number: u32,
    label: Seq<char>,
    r: Result<u64, SvcError>,
    post: WindowView,
) -> bool {
    &&& (r is Ok <==> STUB_SIZE <= pre.remaining())
    &&& r matches Err(e) ==> e == SvcError::WindowExhausted && post == pre
    &&& r matches Ok(addr) ==> {
        &&& addr == pre.cursor
        &&& post.cursor == addr + STUB_SIZE
        &&& post.base == pre.base
        &&& post.size == pre.size
        &&& post.record_labels == pre.record_labels
        &&& post.regions.len() == pre.regions.len() + 1
        &&& post.regions.drop_last() == pre.regions
        &&& post.regions.last().begin == addr
        &&& post.regions.last().end == addr + STUB_SIZE
        &&& post.regions.last().label@ == label
        &&& post.image == pre.image + stub_bytes(number)
    }
}

/// Plants `svc #number; ret` in a fresh eight-byte region labelled `label`
/// and returns the region's address. Exactly those eight bytes change.
/// Refused, with nothing changed, when fewer than eight bytes are left.
pub fn plant_svc_stub(svc: &mut SvcWindow, number: u32, label: &str) -> (r: Result<
    u64,
    SvcError,
>)
    requires
        old(svc)@.wf(),
        number < SVC_MAX,
    ensures
        final(svc)@.wf(),
        final(svc)@.extends(old(svc)@),
        default_stub_step(old(svc)@, number, label@, r, final(svc)@),
{
    let stub = assemble_stub(number);
    let ghost pre = svc@;
    match svc.allocate(stub.len(), label) {
        Err(e) => {
            assert(svc@.regions.subrange(0, pre.regions.len() as int) =~= pre.regions);
            assert(svc@.image.subrange(0, pre.image.len() as int) =~= pre.image);
            Err(e)
        },
        Ok(region) => {
            let ghost mid = svc@;
            assert(allocate_step(pre, STUB_SIZE as nat, label@, region, mid));
            let w = svc.write_bytes(region.begin, stub.as_slice());
            assert(w is Ok);
            assert(svc@.image =~= pre.image + stub_bytes(number));
            assert(svc@.regions.drop_last() =~= pre.regions);
            assert(svc@.regions.subrange(0, pre.regions.len() as int) =~= pre.regions);
            assert(svc@.image.subrange(0, pre.image.len() as int) =~= pre.image);
            Ok(region.begin)
        },
    }
}

/// Host logic callable from guest code through a synthetic call. `C` is the
/// call context through which a handler reads and changes guest state.
pub trait Arm64Svc<C> {
    /// Whether the handler keeps the default registration and states its
    /// name in `label_name`. Handlers that do not say so promise neither.
    open spec fn plants_default_stub(&self) -> bool {
        false
    }

    /// The handler's name, for handlers that keep the default registration.
    open spec fn label_name(&self) -> Seq<char> {
        Seq::empty()
    }

    /// Whether the handler may ask for guest code around `handle`.
    open spec fn has_callbacks(&self) -> bool {
        true
    }

    /// What `handle` may answer for `ctx`; by default anything.
    open spec fn handle_spec(&self, ctx: &C, r: anyhow::Result<Option<i64>>) -> bool {
        true
    }

    /// Name of the handler, used in region labels.
    fn name(&self) -> (r: &str)
        ensures
            self.plants_default_stub() ==> r@ == self.label_name(),
    ;

    /// Plants the guest entry point for call number `number` and returns its
    /// address. By default this is `svc #number; ret` in a fresh eight-byte
    /// region; an override may plant anything, but only by allocating and
    /// writing in the window, and must return an address it allocated.
    fn on_register(&self, svc: &mut SvcWindow, number: u32) -> (r: Result<u64, SvcError>)
        requires
            old(svc)@.wf(),
            number < SVC_MAX,
        ensures
            final(svc)@.wf(),
            final(svc)@.extends(old(svc)@),
            r matches Ok(addr) ==> old(svc)@.cursor <= addr < final(svc)@.cursor,
            self.plants_default_stub() ==> default_stub_step(
                old(svc)@,
                number,
                stub_label(self.label_name(), old(svc)@.record_labels),
                r,
                final(svc)@,
            ),
    {
        if svc.record_labels() {
            let label = String::from_str("Arm64Svc.").concat(self.name());
            plant_svc_stub(svc, number, label.as_str())
        } else {
            plant_svc_stub(svc, number, "Arm64Svc")
        }
    }

    /// Runs the host logic. `Ok(Some(v))` puts `v` in the return register,
    /// `Ok(None)` leaves it alone.
    fn handle(&self, ctx: &C) -> (r: anyhow::Result<Option<i64>>)
        ensures
            self.handle_spec(ctx, r),
    ;

    /// Guest address to run right after `handle`; zero for none.
    fn on_post_callback(&self, ctx: &C) -> (r: u64)
        ensures
            !self.has_callbacks() ==> r == 0,
    {
        0
    }

    /// Guest address to run right before `handle`; zero for none.
    fn on_pre_callback(&self, ctx: &C) -> (r: u64)
        ensures
            !self.has_callbacks() ==> r == 0,
    {
        0
    }
}

/// A handler made of one host function and a name. The function must
/// accept every call context.
pub struct SimpleArm64Svc<C, F: Fn(&C) -> anyhow::Result<Option<i64>>> {
    name: String,
    handle: F,
    context: PhantomData<C>,
}

impl<C, F: Fn(&C) -> anyhow::Result<Option<i64>>> SimpleArm64Svc<C, F> {
    #[verifier::type_invariant]
    spec fn inv(self) -> bool {
        forall|ctx: &C| #[trigger] self.handle.requires((ctx,))
    }

    pub closed spec fn spec_name(&self) -> Seq<char> {
        self.name@
    }

    pub closed spec fn spec_handle(&self) -> F {
        self.handle
    }

    pub fn new(name: &str, handle: F) -> (r: SimpleArm64Svc<C, F>)
        requires
            forall|ctx: &C| #[trigger] handle.requires((ctx,)),
        ensures
            r.spec_name() == name@,
            r.spec_handle() == handle,
    {
        SimpleArm64Svc { name: String::from_str(name), handle, context: PhantomData }
    }
}

impl<C, F: Fn(&C) -> anyhow::Result<Option<i64>>> Arm64Svc<C> for SimpleArm64Svc<C, F> {
    open spec fn label_name(&self) -> Seq<char> {
        self.spec_name()
    }

    open spec fn plants_default_stub(&self) -> bool {
        true
    }

    open spec fn has_callbacks(&self) -> bool {
        false
    }

    /// Whatever the wrapped function answers.
    open spec fn handle_spec(&self, ctx: &C, r: anyhow::Result<Option<i64>>) -> bool {
        self.spec_handle().ensures((ctx,), r)
    }

    fn name(&self) -> &str {
        self.name.as_str()
    }

    fn handle(&self, ctx: &C) -> anyhow::Result<Option<i64>> {
        proof {
            use_type_invariant(self);
        }
        (self.handle)(ctx)
    }
}

/// A boxed handler of any kind acts as the handler it holds, so one
/// registry can hold simple and custom handlers side by side.
impl<C> Arm64Svc<C> for Box<dyn Arm64Svc<C>> {
    open spec fn label_name(&self) -> Seq<char> {
        (**self).label_name()
    }

    open spec fn plants_default_stub(&self) -> bool {
        (**self).plants_default_stub()
    }

    open spec fn has_callbacks(&self) -> bool {
        (**self).has_callbacks()
    }

    open spec fn handle_spec(&self, ctx: &C, r: anyhow::Result<Option<i64>>) -> bool {
        (**self).handle_spec(ctx, r)
    }

    fn name(&self) -> &str {
        (**self).name()
    }

    fn on_register(&self, svc: &mut SvcWindow, number: u32) -> Result<u64, SvcError> {
        (**self).on_register(svc, number)
    }

    fn handle(&self, ctx: &C) -> anyhow::Result<Option<i64>> {
        (**self).handle(ctx)
    }

    fn on_post_callback(&self, ctx: &C) -> u64 {
        (**self).on_post_callback(ctx)
    }

    fn on_pre_callback(&self, ctx: &C) -> u64 {
        (**self).on_pre_callback(ctx)
    }
}

/// Consulted by the symbol resolver for each export it resolves. Returning
/// zero, or `old` itself, leaves the symbol alone; any other address
/// replaces its target.
pub trait HookListener<C> {
    fn hook(&self, ctx: &C, lib_name: String, symbol_name: String, old: u64) -> u64;
}

/// The target of a symbol after a listener answered `hooked` for it.
pub fn hook_target(old: u64, hooked: u64) -> (r: u64)
    ensures
        r == (if hooked == 0 {
            old
        } else {
            hooked
        }),
{
    if hooked == 0 {
        old
    } else {
        hooked
    }
}

} // verus!
