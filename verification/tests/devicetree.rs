//! The devicetree parser, the board it names and the cross-checks, on blobs
//! built by hand.

use opal::arch::aarch64::fdt::{indent_str, prop_value, DumpLine, Fdtr, PropValue};
use opal::board::apple::{
    aic_base, aic_mapped, console as apple_console, device_base, init as apple_init, set_uart_base,
    uart_mapped, AppleBoard, Devices, Mapping,
};
use opal::board::virt;
use opal::board::{which, BoardKind};
use opal::boot::{
    device, fdt_at, fdt_console, fdt_pa, fdt_window, greet_console, intc_check, memory_check, pa_range,
    parange_bits, reloc_delta, timer_check, uart_check, Device, FdtConsole, GicCheck, MemoryCheck,
    PaRange, TimerCheck, UartCheck,
};
use opal::console::{console, Console};
use opal::hal::mmio::MmioOp;

struct Builder {
    body: Vec<u8>,
    strings: Vec<u8>,
    reserves: Vec<(u64, u64)>,
}

impl Builder {
    fn new() -> Builder {
        Builder { body: Vec::new(), strings: Vec::new(), reserves: Vec::new() }
    }

    fn word(&mut self, w: u32) {
        self.body.extend_from_slice(&w.to_be_bytes());
    }

    fn pad(&mut self) {
        while self.body.len() % 4 != 0 {
            self.body.push(0);
        }
    }

    fn open(&mut self, name: &str) {
        self.word(1);
        self.body.extend_from_slice(name.as_bytes());
        self.body.push(0);
        self.pad();
    }

    fn close(&mut self) {
        self.word(2);
    }

    fn nop(&mut self) {
        self.word(4);
    }

    fn prop(&mut self, name: &str, data: &[u8]) {
        let off = self.strings.len() as u32;
        self.strings.extend_from_slice(name.as_bytes());
        self.strings.push(0);
        self.word(3);
        self.word(data.len() as u32);
        self.word(off);
        self.body.extend_from_slice(data);
        self.pad();
    }

    fn text(&mut self, name: &str, value: &str) {
        let mut v = value.as_bytes().to_vec();
        v.push(0);
        self.prop(name, &v);
    }

    fn cells(&mut self, name: &str, cells: &[u32]) {
        let v: Vec<u8> = cells.iter().flat_map(|c| c.to_be_bytes()).collect();
        self.prop(name, &v);
    }

    fn blob(mut self) -> Vec<u8> {
        self.word(9);
        let rsv = 40;
        let st = rsv + 16 * (self.reserves.len() + 1);
        let strs = st + self.body.len();
        let total = strs + self.strings.len();
        let mut out: Vec<u8> = Vec::new();
        let head = [
            0xd00d_feed,
            total as u32,
            st as u32,
            strs as u32,
            rsv as u32,
            17,
            16,
            3,
            self.strings.len() as u32,
            self.body.len() as u32,
        ];
        for w in head {
            out.extend_from_slice(&w.to_be_bytes());
        }
        for (a, s) in &self.reserves {
            out.extend_from_slice(&a.to_be_bytes());
            out.extend_from_slice(&s.to_be_bytes());
        }
        out.extend_from_slice(&[0u8; 16]);
        out.extend_from_slice(&self.body);
        out.extend_from_slice(&self.strings);
        out
    }
}

/// A tree like the virt machine's.
fn virt_tree() -> Vec<u8> {
    let mut b = Builder::new();
    b.reserves.push((0x1000, 0x200));
    b.open("");
    b.text("compatible", "linux,dummy-virt,qemu");
    b.cells("#address-cells", &[2]);
    b.nop();
    b.open("memory@40000000");
    b.cells("reg", &[0, 0x4000_0000, 0, 0x2000_0000]);
    b.text("device_type", "memory");
    b.close();
    b.open("intc@8000000");
    b.text("compatible", "arm,cortex-a15-gic");
    b.cells("reg", &[0, 0x0800_0000, 0, 0x1_0000, 0, 0x0801_0000, 0, 0x1_0000]);
    b.open("v2m@8020000");
    b.text("compatible", "arm,gic-v2m-frame");
    b.close();
    b.close();
    b.open("pl011@9000000");
    b.text("compatible", "arm,pl011");
    b.cells("reg", &[0, 0x0900_0000, 0, 0x1000]);
    b.close();
    b.open("timer");
    b.text("compatible", "arm,armv8-timer");
    b.cells("interrupts", &[1, 13, 0x104, 1, 14, 0x104, 1, 11, 0x104, 1, 10, 0x104]);
    b.prop("always-on", &[]);
    b.close();
    b.close();
    b.blob()
}

fn apple_tree() -> Vec<u8> {
    let mut b = Builder::new();
    b.open("");
    b.text("compatible", "apple,t8103");
    b.open("soc");
    b.open("serial@235200000");
    b.text("compatible", "apple,s5l-uart");
    b.cells("reg", &[2, 0x3520_0000, 0, 0x1000]);
    b.close();
    b.open("interrupt-controller@23b100000");
    b.text("compatible", "apple,aic");
    b.cells("reg", &[2, 0x3b10_0000, 0, 0x8000]);
    b.close();
    b.close();
    b.close();
    b.blob()
}

#[test]
fn the_header_is_checked() {
    let blob = virt_tree();
    let f = Fdtr::new(&blob).unwrap();
    assert_eq!(f.totalsize(), blob.len());
    assert_eq!(f.boot_cpuid(), 3);
    assert!(Fdtr::new(&blob[..39]).is_none());
    assert!(Fdtr::new(&blob[..blob.len() - 1]).is_none());
    assert!(Fdtr::new(&[]).is_none());
    let mut bad = blob.clone();
    bad[0] = 0;
    assert!(Fdtr::new(&bad).is_none());
    let mut long = blob.clone();
    long[4..8].copy_from_slice(&0x7FFF_FFFFu32.to_be_bytes());
    assert!(Fdtr::new(&long).is_none());
    let mut more = blob.clone();
    more.extend_from_slice(&[1, 2, 3]);
    assert_eq!(Fdtr::new(&more).unwrap().totalsize(), blob.len());
}

#[test]
fn nodes_are_found_with_or_without_their_address() {
    let blob = virt_tree();
    let f = Fdtr::new(&blob).unwrap();
    let m = f.find("/memory").unwrap();
    assert_eq!(f.full_name(&m), "memory@40000000");
    assert_eq!(f.name(&m), "memory");
    let m2 = f.find("/memory@40000000").unwrap();
    assert_eq!(f.full_name(&m2), "memory@40000000");
    assert!(f.find("/memory@0").is_none());
    assert!(f.find("/nothing").is_none());
    let v = f.find("/intc/v2m").unwrap();
    assert_eq!(f.compatible(&v), "arm,gic-v2m-frame");
    assert_eq!(f.name(&f.find("/timer").unwrap()), "timer");
    assert_eq!(f.full_name(&f.find("/").unwrap()), "");
}

#[test]
fn properties_are_read() {
    let blob = virt_tree();
    let f = Fdtr::new(&blob).unwrap();
    let root = f.root().unwrap();
    assert_eq!(f.prop_str(&root, "compatible"), Some("linux,dummy-virt,qemu"));
    assert_eq!(f.prop_u32(&root, "#address-cells"), Some(2));
    assert_eq!(f.prop_u64(&root, "#address-cells"), None);
    assert_eq!(f.prop_u32(&root, "missing"), None);
    let m = f.find("/memory").unwrap();
    assert_eq!(f.prop(&m, "reg").unwrap().len(), 16);
    assert_eq!(f.compatible(&m), "");
    assert_eq!(f.prop_str(&m, "device_type"), Some("memory"));
    let t = f.find("/timer").unwrap();
    assert_eq!(f.prop(&t, "always-on").unwrap().len(), 0);
    let mut cells = f.prop_cells(&t, "interrupts");
    let mut all = Vec::new();
    while let Some(c) = cells.next() {
        all.push(c);
    }
    assert_eq!(all, vec![1, 13, 0x104, 1, 14, 0x104, 1, 11, 0x104, 1, 10, 0x104]);
    assert_eq!(cells.next(), None);
    assert_eq!(f.prop_cells(&t, "missing").next(), None);
}

#[test]
fn wide_numbers_are_big_endian() {
    let mut b = Builder::new();
    b.open("");
    b.prop("w", &[1, 2, 3, 4, 5, 6, 7, 8]);
    b.prop("odd", &[0, 0, 0, 9, 1]);
    b.close();
    let blob = b.blob();
    let f = Fdtr::new(&blob).unwrap();
    let r = f.root().unwrap();
    assert_eq!(f.prop_u64(&r, "w"), Some(0x0102_0304_0506_0708));
    assert_eq!(f.prop_u32(&r, "odd"), None);
    let mut c = f.prop_cells(&r, "odd");
    assert_eq!(c.next(), Some(9));
    assert_eq!(c.next(), None);
}

#[test]
fn children_come_in_order() {
    let blob = virt_tree();
    let f = Fdtr::new(&blob).unwrap();
    let root = f.root().unwrap();
    let mut it = f.children(&root);
    let mut names = Vec::new();
    while let Some(n) = it.next() {
        names.push(f.name(&n).to_string());
    }
    assert_eq!(names, vec!["memory", "intc", "pl011", "timer"]);
    assert!(it.next().is_none());
    let timer = f.find("/timer").unwrap();
    assert!(f.children(&timer).next().is_none());
}

#[test]
fn reservations_end_at_the_zero_entry() {
    let blob = virt_tree();
    let f = Fdtr::new(&blob).unwrap();
    let mut it = f.reserves();
    let r = it.next().unwrap();
    assert_eq!((r.address, r.size), (0x1000, 0x200));
    assert!(it.next().is_none());
}

#[test]
fn the_first_compatible_node_in_preorder_wins() {
    let blob = virt_tree();
    let f = Fdtr::new(&blob).unwrap();
    let g = f.find_by_compatible("gic").unwrap();
    assert_eq!(f.full_name(&g), "intc@8000000");
    let v = f.find_by_compatible("v2m").unwrap();
    assert_eq!(f.full_name(&v), "v2m@8020000");
    assert!(f.find_by_compatible("apple").is_none());
}

#[test]
fn the_dump_shows_every_node_and_property() {
    let mut b = Builder::new();
    b.open("");
    b.text("model", "opal");
    b.nop();
    b.open("cpu@0");
    b.cells("reg", &[1, 2]);
    b.prop("raw", &[1, 2, 3]);
    b.prop("flag", &[]);
    b.close();
    b.close();
    let blob = b.blob();
    let lines = Fdtr::new(&blob).unwrap().dump().unwrap();
    let shown: Vec<String> = lines
        .iter()
        .map(|l| match l {
            DumpLine::Node { depth, label } => format!("{} {}", depth, label),
            DumpLine::Prop { depth, name, value } => format!(
                "{} {} {}",
                depth,
                name,
                match value {
                    PropValue::Empty => "-".to_string(),
                    PropValue::Text(s) => format!("\"{}\"", s),
                    PropValue::Cells(c) => format!("{:?}", c),
                    PropValue::Bytes(v) => format!("b{:?}", v),
                }
            ),
        })
        .collect();
    assert_eq!(
        shown,
        vec![
            "0 /",
            "1 model \"opal\"",
            "1 cpu@0",
            "2 reg [1, 2]",
            "2 raw b[1, 2, 3]",
            "2 flag -",
        ]
    );
}

#[test]
fn values_are_guessed_by_their_bytes() {
    assert!(matches!(prop_value(&[]), PropValue::Empty));
    match prop_value(b"okay\0") {
        PropValue::Text(s) => assert_eq!(s, "okay"),
        _ => panic!("not text"),
    }
    match prop_value(&[0, 0, 0, 1]) {
        PropValue::Cells(c) => assert_eq!(c, vec![1]),
        _ => panic!("not cells"),
    }
    match prop_value(&[0, 1, 2]) {
        PropValue::Bytes(v) => assert_eq!(v, vec![0, 1, 2]),
        _ => panic!("not bytes"),
    }
}

#[test]
fn indentation_grows_with_depth() {
    assert_eq!(indent_str(0), "");
    assert_eq!(indent_str(1), "  ");
    assert_eq!(indent_str(2), "    ");
}

#[test]
fn the_board_is_the_one_the_root_names() {
    let v = virt_tree();
    let a = apple_tree();
    assert_eq!(which(Some(&Fdtr::new(&v).unwrap())), BoardKind::Virt);
    assert_eq!(which(Some(&Fdtr::new(&a).unwrap())), BoardKind::Apple);
    assert_eq!(which(None), BoardKind::Virt);
    let mut b = Builder::new();
    b.open("");
    b.text("compatible", "apple,qemu");
    b.close();
    let blob = b.blob();
    assert_eq!(which(Some(&Fdtr::new(&blob).unwrap())), BoardKind::Virt);
    let mut b = Builder::new();
    b.open("");
    b.text("compatible", "acme,apple,");
    b.close();
    let blob = b.blob();
    assert_eq!(which(Some(&Fdtr::new(&blob).unwrap())), BoardKind::Virt);
}

#[test]
fn the_apple_board_is_discovered() {
    let blob = apple_tree();
    let f = Fdtr::new(&blob).unwrap();
    assert_eq!(device_base(&f, "apple,aic"), Some(0x2_3b10_0000));
    assert_eq!(device_base(&f, "apple,nothing"), None);
    let d = apple_init(Some(&f));
    let uart = Mapping { va: 0xFFFF_0002_3520_0000, pa: 0x2_3520_0000 };
    let aic = Mapping { va: 0xFFFF_0002_3b10_0000, pa: 0x2_3b10_0000 };
    assert_eq!(d, Devices { uart: Some(uart), aic: Some(aic) });
    let mut board = AppleBoard::new();
    assert_eq!(aic_base(&board), 0);
    assert_eq!(apple_console(&board).base(), 0);
    uart_mapped(&mut board, uart);
    assert_eq!(apple_console(&board).base(), uart.va);
    let ops = aic_mapped(&mut board, aic, 2);
    assert_eq!(aic_base(&board), aic.va);
    assert_eq!(board.aic.unwrap().cached_nr_irq(), 2);
    assert_eq!(ops.len(), 4);
    assert_eq!(ops[2], MmioOp::Write32 { addr: aic.va + 0x3000, val: 1 });
    set_uart_base(&mut board, 5);
    assert_eq!(board.uart_base, 5);
    assert_eq!(apple_init(None), Devices { uart: None, aic: None });
}

#[test]
fn a_device_without_cells_is_at_zero() {
    let mut b = Builder::new();
    b.open("");
    b.open("aic");
    b.text("compatible", "apple,aic");
    b.close();
    b.open("uart");
    b.text("compatible", "apple,s5l-uart");
    b.cells("reg", &[1]);
    b.close();
    b.close();
    let blob = b.blob();
    let f = Fdtr::new(&blob).unwrap();
    assert_eq!(device_base(&f, "apple,aic"), Some(0));
    assert_eq!(device_base(&f, "apple,s5l-uart"), Some(0x1_0000_0000));
}

#[test]
fn the_console_follows_the_board() {
    let mut board = AppleBoard::new();
    set_uart_base(&mut board, 0x1000);
    let v = console(BoardKind::Virt, &board);
    assert!(matches!(v, Console::Virt(_)));
    assert_eq!(v.status(), virt::UART0_VA + 0x18);
    assert_eq!(
        v.write_byte(0, b'a'),
        Some(MmioOp::Write32 { addr: virt::UART0_VA, val: 0x61 })
    );
    assert_eq!(v.try_read_byte(0x10), None);
    let a = console(BoardKind::Apple, &board);
    assert_eq!(a.status(), 0x1010);
    assert_eq!(a.write_byte(2, b'a'), Some(MmioOp::Write8 { addr: 0x1020, byte: b'a' }));
    assert_eq!(a.try_read_byte(1), Some(0x1024));
    assert_eq!(a.write_str("x\n"), b"x\r\n".to_vec());
}

#[test]
fn the_virt_board_needs_no_setup_but_its_gic_does() {
    assert_eq!(virt::init(), Vec::<MmioOp>::new());
    let ops = virt::gic().init();
    assert_eq!(ops.len(), 9);
    assert_eq!(ops[0], MmioOp::Write32 { addr: virt::GICD_VA, val: 1 });
    assert_eq!(virt::gic().acknowledge(), virt::GICC_VA + 0xC);
    assert_eq!(virt::console().flags(), virt::UART0_VA + 0x18);
}

#[test]
fn the_tree_is_held_against_the_constants() {
    let blob = virt_tree();
    let f = Fdtr::new(&blob).unwrap();
    let mem = device(&f, "/memory", "reg").unwrap();
    assert_eq!(mem.name, "memory@40000000");
    assert_eq!(
        memory_check(&mem),
        Some(MemoryCheck {
            base: 0x4000_0000,
            size: 0x2000_0000,
            mib: 512,
            base_matches: true,
            size_matches: true
        })
    );
    let intc = device(&f, "/intc", "reg").unwrap();
    assert_eq!(intc.compat, "arm,cortex-a15-gic");
    assert_eq!(
        intc_check(&intc),
        Some(GicCheck {
            gicd: 0x0800_0000,
            gicc: 0x0801_0000,
            gicd_matches: true,
            gicc_matches: true
        })
    );
    let uart = device(&f, "/pl011", "reg").unwrap();
    assert_eq!(uart_check(&uart), Some(UartCheck { base: 0x0900_0000, matches: true }));
    let timer = device(&f, "/timer", "interrupts").unwrap();
    assert_eq!(timer_check(&timer), Some(TimerCheck { ppi: 11, irq: 27, matches: true }));
    assert!(device(&f, "/missing", "reg").is_none());
}

#[test]
fn short_or_missing_properties_are_not_checked() {
    let none = Device { name: "x", compat: "", prop: None };
    assert_eq!(memory_check(&none), None);
    assert_eq!(intc_check(&none), None);
    assert_eq!(uart_check(&none), None);
    assert_eq!(timer_check(&none), None);
    let data = [0u8; 15];
    let short = Device { name: "x", compat: "", prop: Some(&data) };
    assert_eq!(memory_check(&short), None);
    assert_eq!(uart_check(&short), None);
    let data = [0u8; 31];
    let short = Device { name: "x", compat: "", prop: Some(&data) };
    assert_eq!(intc_check(&short), None);
    assert_eq!(timer_check(&short), None);
    let data = [0xFFu8; 32];
    let odd = Device { name: "x", compat: "", prop: Some(&data) };
    assert_eq!(
        timer_check(&odd),
        Some(TimerCheck { ppi: u32::MAX, irq: 0x1_0000_000F, matches: false })
    );
    assert!(!memory_check(&odd).unwrap().base_matches);
}

#[test]
fn the_console_is_found_by_what_it_is() {
    let blob = virt_tree();
    let f = Fdtr::new(&blob).unwrap();
    match fdt_console(&f) {
        FdtConsole::Found { name, pa } => assert_eq!((name, pa), ("pl011@9000000", 0x0900_0000)),
        _ => panic!("not found"),
    }
    let a = apple_tree();
    assert!(matches!(fdt_console(&Fdtr::new(&a).unwrap()), FdtConsole::NotFound));
    let mut b = Builder::new();
    b.nop();
    let rootless = b.blob();
    assert!(matches!(fdt_console(&Fdtr::new(&rootless).unwrap()), FdtConsole::NoRoot));
    let mut b = Builder::new();
    b.open("");
    b.open("u");
    b.text("compatible", "arm,pl011");
    b.close();
    b.open("v");
    b.text("compatible", "arm,pl011");
    b.cells("reg", &[0, 1]);
    b.close();
    b.close();
    let bare = b.blob();
    assert!(matches!(fdt_console(&Fdtr::new(&bare).unwrap()), FdtConsole::NotFound));
}

#[test]
fn the_console_is_found_however_deep_it_lies() {
    let mut b = Builder::new();
    b.open("");
    b.open("soc");
    b.open("bus");
    b.open("uart@1f000");
    b.text("compatible", "arm,pl011");
    b.cells("reg", &[1, 0x0001_F000]);
    b.close();
    b.close();
    b.close();
    b.open("uart@2f000");
    b.text("compatible", "arm,pl011");
    b.cells("reg", &[0, 0x0002_F000]);
    b.close();
    b.close();
    let blob = b.blob();
    match fdt_console(&Fdtr::new(&blob).unwrap()) {
        FdtConsole::Found { name, pa } => assert_eq!((name, pa), ("uart@1f000", 0x1_0001_F000)),
        _ => panic!("not found"),
    }
}

#[test]
fn the_greeting_goes_to_the_data_register() {
    let want: Vec<MmioOp> = b"hello from the FDT-discovered console!\r\n"
        .iter()
        .map(|b| MmioOp::Write32 { addr: 0xFFFF_0000_0900_0000, val: *b as u32 })
        .collect();
    assert_eq!(greet_console(0x0900_0000), want);
}

#[test]
fn an_empty_structure_block_has_no_root() {
    let mut blob: Vec<u8> = Vec::new();
    for w in [0xd00d_feed_u32, 44, 40, 44, 40, 17, 16, 0, 0, 0, 1] {
        blob.extend_from_slice(&w.to_be_bytes());
    }
    let f = Fdtr::new(&blob).unwrap();
    assert!(f.root().is_none());
    assert!(f.find("/").is_none());
    assert!(f.dump().is_none());
    assert!(matches!(fdt_console(&f), FdtConsole::NoRoot));
    blob[39] = 4;
    let f = Fdtr::new(&blob).unwrap();
    assert!(f.root().is_some());
}

#[test]
fn a_blob_is_recognised_where_it_can_be() {
    let magic = Some([0xd0, 0x0d, 0xfe, 0xed]);
    assert_eq!(fdt_window(0x4000_0000), Some(0xFFFF_0000_4000_0000));
    assert_eq!(fdt_window(0x5FFF_FFFC), Some(0xFFFF_0000_5FFF_FFFC));
    assert_eq!(fdt_window(0x6000_0000), None);
    assert_eq!(fdt_window(0x3FFF_FFFC), None);
    assert_eq!(fdt_window(0x4000_0002), None);
    assert!(fdt_at(0x4000_0000, magic));
    assert!(!fdt_at(0x4000_0000, Some([0xed, 0xfe, 0x0d, 0xd0])));
    assert!(!fdt_at(0x4000_0000, None));
    assert!(!fdt_at(0, magic));
    assert_eq!(fdt_pa(0x4800_0000, true), 0x4800_0000);
    assert_eq!(fdt_pa(0, false), 0x4000_0000);
}

#[test]
fn physical_ranges_are_decoded() {
    let bits: Vec<u64> = (0..9).map(parange_bits).collect();
    assert_eq!(bits, vec![32, 36, 40, 42, 44, 48, 52, 0, 0]);
    assert_eq!(
        pa_range(0xFFF6, 0x5_7510_B510),
        PaRange { parange: 6, ips: 5 }
    );
}

#[test]
fn the_kernel_knows_how_far_it_was_moved() {
    assert_eq!(reloc_delta(0x4020_0000), 0);
    assert_eq!(reloc_delta(0x8020_0000), 0x4000_0000);
    assert_eq!(reloc_delta(0x4010_0000), 0xFFFF_FFFF_FFF0_0000);
}
