use svc_memory::encoder::{assemble_stub, assemble_svc, RET_INSN, SVC_IMM_MASK, SVC_MAX, SVC_TEMPLATE};
use svc_memory::handler::{hook_target, plant_svc_stub, Arm64Svc, SimpleArm64Svc};
use svc_memory::memory::{SvcConfig, SvcMemory, SVC_BASE, SVC_NUMBER_OFFSET, SVC_SIZE};
use svc_memory::window::{SvcError, SvcWindow, PERM_READ_EXEC};

struct Ctx {
    x0: i64,
}

type HandleFn = fn(&Ctx) -> anyhow::Result<Option<i64>>;
type Simple = SimpleArm64Svc<Ctx, HandleFn>;

fn h1(_: &Ctx) -> anyhow::Result<Option<i64>> {
    Ok(Some(1))
}

fn h2(c: &Ctx) -> anyhow::Result<Option<i64>> {
    Ok(Some(c.x0 + 2))
}

fn h3(_: &Ctx) -> anyhow::Result<Option<i64>> {
    Ok(None)
}

fn failing(_: &Ctx) -> anyhow::Result<Option<i64>> {
    Err(anyhow::Error::msg("bad guest pointer"))
}

fn simple(name: &str, f: HandleFn) -> Simple {
    SimpleArm64Svc::new(name, f)
}

fn config(base: u64, size: u64) -> SvcConfig {
    SvcConfig {
        base,
        size,
        max_number: SVC_MAX,
        number_offset: SVC_NUMBER_OFFSET,
        record_labels: false,
    }
}

#[test]
fn assemble_packs_number_into_immediate() {
    assert_eq!(assemble_svc(0), 0xd400_0001);
    assert_eq!(assemble_svc(1), 0xd400_0021);
    assert_eq!(assemble_svc(0x201), 0xd400_4021);
    assert_eq!(assemble_svc(0xffff), 0xd41f_ffe1);
    for n in [0u32, 1, 0x200, 0x1234, 0xfffe, 0xffff] {
        let r = assemble_svc(n);
        assert_eq!(r & !SVC_IMM_MASK, SVC_TEMPLATE);
        assert_eq!((r & SVC_IMM_MASK) >> 5, n);
    }
}

#[test]
fn stub_is_svc_then_ret_little_endian() {
    let stub = assemble_stub(0x201);
    assert_eq!(stub, vec![0x21, 0x40, 0x00, 0xd4, 0xc0, 0x03, 0x5f, 0xd6]);
    assert_eq!(&stub[4..], &RET_INSN.to_le_bytes());
    assert_eq!(&stub[..4], &assemble_svc(0x201).to_le_bytes());
}

#[test]
fn three_stubs_scenario() {
    let base = 0x1000u64;
    let mut m: SvcMemory<Simple> = SvcMemory::new(config(base, 24)).unwrap();
    assert_eq!(m.register_svc(simple("h1", h1)), Ok(base));
    assert_eq!(m.last_number(), SVC_NUMBER_OFFSET + 1);
    assert_eq!(m.register_svc(simple("h2", h2)), Ok(base + 8));
    assert_eq!(m.last_number(), SVC_NUMBER_OFFSET + 2);
    assert_eq!(m.register_svc(simple("h3", h3)), Ok(base + 16));
    assert_eq!(m.last_number(), SVC_NUMBER_OFFSET + 3);
    let h = m.get_svc(SVC_NUMBER_OFFSET + 2).unwrap();
    assert_eq!(h.name(), "h2");
    assert_eq!(h.handle(&Ctx { x0: 40 }).unwrap(), Some(42));
    assert_eq!(m.get_svc(SVC_NUMBER_OFFSET + 1).unwrap().handle(&Ctx { x0: 0 }).unwrap(), Some(1));
    assert_eq!(m.get_svc(SVC_NUMBER_OFFSET + 3).unwrap().handle(&Ctx { x0: 0 }).unwrap(), None);
    let bytes = m.window().read_bytes(base + 8, 8).unwrap();
    assert_eq!(bytes, assemble_stub(SVC_NUMBER_OFFSET + 2));
}

#[test]
fn numbers_increase_from_offset() {
    let mut m: SvcMemory<Simple> = SvcMemory::new(SvcConfig::default()).unwrap();
    assert_eq!(m.last_number(), SVC_NUMBER_OFFSET);
    let mut prev = m.last_number();
    for k in 1..=20u32 {
        m.register_svc(simple("h", h1)).unwrap();
        assert_eq!(m.last_number(), SVC_NUMBER_OFFSET + k);
        assert!(m.last_number() > prev);
        prev = m.last_number();
    }
}

#[test]
fn unregistered_numbers_are_absent() {
    let mut m: SvcMemory<Simple> = SvcMemory::new(SvcConfig::default()).unwrap();
    assert!(m.get_svc(SVC_NUMBER_OFFSET + 1).is_none());
    m.register_svc(simple("h1", h1)).unwrap();
    assert!(m.get_svc(SVC_NUMBER_OFFSET + 1).is_some());
    assert!(m.get_svc(0).is_none());
    assert!(m.get_svc(93).is_none());
    assert!(m.get_svc(SVC_NUMBER_OFFSET).is_none());
    assert!(m.get_svc(SVC_NUMBER_OFFSET + 2).is_none());
    assert!(m.get_svc(u32::MAX).is_none());
}

#[test]
fn default_registration_writes_exactly_eight_bytes() {
    let base = 0x4000u64;
    let mut m: SvcMemory<Simple> = SvcMemory::new(config(base, 64)).unwrap();
    let addr = m.register_svc(simple("h1", h1)).unwrap();
    assert_eq!(addr, base);
    assert_eq!(m.window().cursor(), base + 8);
    assert_eq!(m.window().read_bytes(addr, 8).unwrap(), assemble_stub(SVC_NUMBER_OFFSET + 1));
    assert_eq!(m.window().read_bytes(addr, 9), Err(SvcError::OutOfWindow));
    let regions = m.window().regions();
    assert_eq!(regions.len(), 1);
    assert_eq!(regions[0].begin, base);
    assert_eq!(regions[0].end, base + 8);
    assert_eq!(regions[0].label, "Arm64Svc");
    assert_eq!(regions[0].perms, PERM_READ_EXEC);
}

#[test]
fn labels_carry_names_when_recorded() {
    let mut cfg = config(0x8000, 64);
    cfg.record_labels = true;
    let mut m: SvcMemory<Simple> = SvcMemory::new(cfg).unwrap();
    m.register_svc(simple("malloc", h1)).unwrap();
    assert_eq!(m.window().regions()[0].label, "Arm64Svc.malloc");
}

#[test]
fn allocate_rounds_up_and_orders_regions() {
    let base = 0x10_000u64;
    let mut m: SvcMemory<Simple> = SvcMemory::new(config(base, 0x100)).unwrap();
    let a = m.allocate(5, "a").unwrap();
    let b = m.allocate(9, "b").unwrap();
    let c = m.allocate(16, "c").unwrap();
    assert_eq!((a.begin, a.end), (base, base + 8));
    assert_eq!((b.begin, b.end), (base + 8, base + 24));
    assert_eq!((c.begin, c.end), (base + 24, base + 40));
    assert_eq!(a.virtual_address, a.begin);
    assert_eq!(b.label, "b");
    assert_eq!(c.offset, 0);
    assert!(c.library_file_path.is_none());
    assert!(a.end <= b.begin && b.end <= c.begin);
    assert_eq!(m.window().regions().len(), 3);
    assert_eq!(m.window().read_bytes(base, 40).unwrap(), vec![0u8; 40]);
}

#[test]
fn allocate_empty_request_is_refused() {
    let mut m: SvcMemory<Simple> = SvcMemory::new(config(0x1000, 64)).unwrap();
    assert_eq!(m.allocate(0, "empty").unwrap_err(), SvcError::EmptyRequest);
    assert_eq!(m.window().cursor(), 0x1000);
    assert!(m.window().regions().is_empty());
}

#[test]
fn exhaustion_keeps_earlier_regions() {
    let base = 0x2000u64;
    let mut m: SvcMemory<Simple> = SvcMemory::new(config(base, 40)).unwrap();
    let mut got = Vec::new();
    loop {
        match m.allocate(12, "block") {
            Ok(r) => got.push((r.begin, r.end)),
            Err(e) => {
                assert_eq!(e, SvcError::WindowExhausted);
                break;
            }
        }
    }
    assert_eq!(got, vec![(base, base + 16), (base + 16, base + 32)]);
    assert_eq!(m.window().cursor(), base + 32);
    assert_eq!(m.allocate(12, "block").unwrap_err(), SvcError::WindowExhausted);
    let kept: Vec<(u64, u64)> = m.window().regions().iter().map(|r| (r.begin, r.end)).collect();
    assert_eq!(kept, got);
    let last = m.allocate(8, "last").unwrap();
    assert_eq!((last.begin, last.end), (base + 32, base + 40));
}

#[test]
fn registration_fails_when_window_is_full() {
    let base = 0x3000u64;
    let mut m: SvcMemory<Simple> = SvcMemory::new(config(base, 8)).unwrap();
    assert_eq!(m.register_svc(simple("h1", h1)), Ok(base));
    assert_eq!(m.register_svc(simple("h2", h2)), Err(SvcError::WindowExhausted));
    assert_eq!(m.last_number(), SVC_NUMBER_OFFSET + 2);
    assert!(m.get_svc(SVC_NUMBER_OFFSET + 2).is_none());
    assert!(m.get_svc(SVC_NUMBER_OFFSET + 1).is_some());
}

#[test]
fn registration_fails_when_numbers_run_out() {
    let mut cfg = config(0x1000, 64);
    cfg.max_number = SVC_NUMBER_OFFSET + 2;
    let mut m: SvcMemory<Simple> = SvcMemory::new(cfg).unwrap();
    assert_eq!(m.register_svc(simple("h1", h1)), Ok(0x1000));
    assert_eq!(m.register_svc(simple("h2", h2)), Err(SvcError::NumbersExhausted));
    assert_eq!(m.last_number(), SVC_NUMBER_OFFSET + 1);
    assert_eq!(m.window().cursor(), 0x1008);
}

#[test]
fn bad_configurations_are_refused() {
    assert!(SvcMemory::<Simple>::new(config(0, 64)).is_err());
    assert!(SvcMemory::<Simple>::new(config(0x1001, 64)).is_err());
    assert!(SvcMemory::<Simple>::new(config(0x1000, 63)).is_err());
    assert!(SvcMemory::<Simple>::new(config(u64::MAX - 7, 16)).is_err());
    let mut cfg = config(0x1000, 64);
    cfg.max_number = SVC_NUMBER_OFFSET;
    assert_eq!(SvcMemory::<Simple>::new(cfg).err(), Some(SvcError::BadConfig));
    cfg.max_number = SVC_MAX + 1;
    assert_eq!(SvcMemory::<Simple>::new(cfg).err(), Some(SvcError::BadConfig));
}

#[test]
fn default_config_values() {
    let cfg = SvcConfig::default();
    assert_eq!(cfg.base, SVC_BASE);
    assert_eq!(cfg.size, SVC_SIZE);
    assert_eq!(cfg.number_offset, 0x200);
    assert_eq!(cfg.max_number, 0x10000);
    assert!(!cfg.record_labels);
}

#[test]
fn window_writes_stay_inside_allocated_part() {
    let mut w = SvcWindow::new(0x1000, 32, false).unwrap();
    w.allocate(16, "data").unwrap();
    assert_eq!(w.write_bytes(0x1004, &[1, 2, 3]), Ok(()));
    assert_eq!(w.read_bytes(0x1000, 8).unwrap(), vec![0, 0, 0, 0, 1, 2, 3, 0]);
    assert_eq!(w.write_bytes(0x100e, &[1, 2, 3]), Err(SvcError::OutOfWindow));
    assert_eq!(w.write_bytes(0xfff, &[1]), Err(SvcError::OutOfWindow));
    assert_eq!(w.read_bytes(0x1010, 1), Err(SvcError::OutOfWindow));
}

#[test]
fn plant_stub_on_bare_window() {
    let mut w = SvcWindow::new(0x1000, 16, false).unwrap();
    assert_eq!(plant_svc_stub(&mut w, 7, "seven"), Ok(0x1000));
    assert_eq!(plant_svc_stub(&mut w, 8, "eight"), Ok(0x1008));
    assert_eq!(plant_svc_stub(&mut w, 9, "nine"), Err(SvcError::WindowExhausted));
    assert_eq!(w.read_bytes(0x1008, 8).unwrap(), assemble_stub(8));
    assert_eq!(w.regions()[1].label, "eight");
}

#[test]
fn handler_errors_propagate() {
    let mut m: SvcMemory<Simple> = SvcMemory::new(SvcConfig::default()).unwrap();
    m.register_svc(simple("bad", failing)).unwrap();
    let h = m.get_svc(SVC_NUMBER_OFFSET + 1).unwrap();
    assert!(h.handle(&Ctx { x0: 0 }).is_err());
    assert_eq!(h.on_pre_callback(&Ctx { x0: 0 }), 0);
    assert_eq!(h.on_post_callback(&Ctx { x0: 0 }), 0);
}

/// A handler whose stub carries a data word in front of the entry point,
/// reserved with a second allocation during its own registration.
struct WithData {
    word: u32,
}

impl Arm64Svc<Ctx> for WithData {
    fn name(&self) -> &str {
        "with_data"
    }

    fn on_register(&self, svc: &mut SvcWindow, number: u32) -> Result<u64, SvcError> {
        let data = svc.allocate(4, "data")?;
        svc.write_bytes(data.begin, &self.word.to_le_bytes())?;
        plant_svc_stub(svc, number, "entry")
    }

    fn handle(&self, _: &Ctx) -> anyhow::Result<Option<i64>> {
        Ok(Some(self.word as i64))
    }
}

#[test]
fn custom_registration_may_allocate_more() {
    let base = 0x5000u64;
    let mut m: SvcMemory<WithData> = SvcMemory::new(config(base, 64)).unwrap();
    let addr = m.register_svc(WithData { word: 0xdead_beef }).unwrap();
    assert_eq!(addr, base + 8);
    assert_eq!(m.window().read_bytes(base, 4).unwrap(), vec![0xef, 0xbe, 0xad, 0xde]);
    assert_eq!(m.window().read_bytes(addr, 8).unwrap(), assemble_stub(SVC_NUMBER_OFFSET + 1));
    let addr2 = m.register_svc(WithData { word: 1 }).unwrap();
    assert_eq!(addr2, base + 24);
    assert_eq!(m.get_svc(SVC_NUMBER_OFFSET + 2).unwrap().handle(&Ctx { x0: 0 }).unwrap(), Some(1));
}

#[test]
fn hook_target_keeps_or_replaces() {
    assert_eq!(hook_target(0x4000, 0), 0x4000);
    assert_eq!(hook_target(0x4000, 0x4000), 0x4000);
    assert_eq!(hook_target(0x4000, 0xfffe_0010), 0xfffe_0010);
}

#[test]
fn boxed_handlers_of_both_kinds_share_a_registry() {
    let base = 0x6000u64;
    let mut m: SvcMemory<Box<dyn Arm64Svc<Ctx>>> = SvcMemory::new(config(base, 64)).unwrap();
    let simple_box: Box<dyn Arm64Svc<Ctx>> = Box::new(simple("h2", h2));
    let custom_box: Box<dyn Arm64Svc<Ctx>> = Box::new(WithData { word: 7 });
    assert_eq!(m.register_svc(simple_box), Ok(base));
    assert_eq!(m.register_svc(custom_box), Ok(base + 16));
    let first = m.get_svc(SVC_NUMBER_OFFSET + 1).unwrap();
    assert_eq!(first.name(), "h2");
    assert_eq!(first.handle(&Ctx { x0: 1 }).unwrap(), Some(3));
    let second = m.get_svc(SVC_NUMBER_OFFSET + 2).unwrap();
    assert_eq!(second.name(), "with_data");
    assert_eq!(second.handle(&Ctx { x0: 0 }).unwrap(), Some(7));
    assert_eq!(m.window().read_bytes(base + 16, 8).unwrap(), assemble_stub(SVC_NUMBER_OFFSET + 2));
}

#[test]
fn simple_handler_returns_wrapped_result() {
    let h = simple("h2", h2);
    assert_eq!(h.handle(&Ctx { x0: 40 }).unwrap(), Some(42));
    assert_eq!(h.name(), "h2");
    assert!(simple("bad", failing).handle(&Ctx { x0: 0 }).is_err());
    assert_eq!(simple("none", h3).handle(&Ctx { x0: 5 }).unwrap(), None);
}
