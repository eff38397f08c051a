use corgos::aarch64_regs::{
    Aarch64Register, CurrentEl, El, MainIdEl1, MemoryAttributeEl1, MemoryAttributeIndirectionEl1,
    MmFeatures0El1, MmfPaRange, PageBlockEntry, SavedProgramStateEl1, SavedProgramStateMode,
    SystemControlEl1, TranslationBase0El1, TranslationControlEl1, TranslationGranule0,
    TranslationGranule1,
};

#[test]
fn memory_attribute_slots() {
    let mair = MemoryAttributeIndirectionEl1::default();
    assert_eq!(mair.get_index(MemoryAttributeEl1::Device_nGnRnE), Some(0));
    assert_eq!(mair.get_index(MemoryAttributeEl1::Normal_NonCacheable), Some(1));
    assert_eq!(mair.get_index(MemoryAttributeEl1::Normal_WriteBack), Some(2));
    assert_eq!(mair.get_index(MemoryAttributeEl1::Normal_WriteThrough), Some(3));
    assert_eq!(mair.into_bits(), 0x0000_0000_bbff_4400);
    assert_eq!(mair.name(), "MAIR_EL1");

    let empty = MemoryAttributeIndirectionEl1::new();
    assert_eq!(empty.get_index(MemoryAttributeEl1::Normal_WriteBack), None);
    assert_eq!(empty.get_index(MemoryAttributeEl1::Device_nGnRnE), Some(0));

    let read = MemoryAttributeIndirectionEl1::from_bits(0x44ff_0000_0000_bb00);
    assert_eq!(read.0, [0x00, 0xbb, 0, 0, 0, 0, 0xff, 0x44]);
    assert_eq!(read.into_bits(), 0x44ff_0000_0000_bb00);
    assert_eq!(read.get_index(MemoryAttributeEl1::Normal_NonCacheable), Some(7));
}

#[test]
fn register_fields() {
    let current = CurrentEl::from_bits(0b0100);
    assert_eq!(current.el(), El::EL1);
    assert_eq!(current.name(), "CurrentEL");

    let sctlr = SystemControlEl1::default();
    assert_eq!(sctlr.into_bits(), 0x3050_0980);
    assert_eq!(sctlr.eos(), 1);
    assert_eq!(sctlr.m(), 0);
    assert_eq!(sctlr.itd(), 1);

    let spsr = SavedProgramStateEl1::from_bits(0x3c5);
    assert_eq!(spsr.mode(), SavedProgramStateMode::EL1h);
    assert!(spsr.f() && spsr.i() && spsr.a() && spsr.d());
    assert!(!spsr.aarch32());

    let midr = MainIdEl1::from_bits(0x410f_d083);
    assert_eq!(midr.implementer(), 0x41);
    assert_eq!(midr.part_num(), 0xd08);
    assert_eq!(midr.revision(), 3);

    let ttbr0 = TranslationBase0El1::from_bits(0x0001_0000_4000_0000);
    assert_eq!(ttbr0.baddr(), 0x4000_0000);
    assert_eq!(ttbr0.asid(), 1);
    assert_eq!(ttbr0.bits(), 0x0001_0000_4000_0000);

    let tcr = TranslationControlEl1::from_bits((0b10 << 30) | (0b00 << 14) | (0b101 << 32) | 16);
    assert_eq!(tcr.t0sz(), 16);
    assert_eq!(tcr.tg0(), TranslationGranule0::_4KB);
    assert_eq!(tcr.tg1(), TranslationGranule1::_4KB);
    assert_eq!(tcr.ips().bits(), 0b101);

    let mmfr0 = MmFeatures0El1::from_bits(0x5);
    assert_eq!(mmfr0.pa_range(), MmfPaRange::_48_bits_256TB);

    let block = PageBlockEntry::from_bits(0x0060_0000_8000_0709);
    assert!(block.valid());
    assert!(!block.page());
    assert_eq!(block.mair_idx(), 2);
    assert!(block.accessed());
    assert_eq!(block.address_pfn(), 0x8_0000);
    assert!(block.priv_x_never() && block.user_x_never());
}

#[test]
fn field_encodings_round_trip() {
    assert_eq!(El::from_bits(3), El::EL3);
    assert_eq!(El::EL2.bits(), 2);
    assert_eq!(SavedProgramStateMode::from_bits(0b1101), SavedProgramStateMode::EL3h);
    assert_eq!(SavedProgramStateMode::EL2t.bits(), 0b1000);
    assert_eq!(MemoryAttributeEl1::Normal_WriteThrough.bits(), 0xbb);
}
