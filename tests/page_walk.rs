use corgos::aarch64_regs::TranslationBase0El1;
use corgos::page_walk::PageTableWalk;

#[test]
fn walk_visits_tables_depth_first() {
    let ttbr0 = TranslationBase0El1::from_bits(0x0001_0000_4000_0000);
    let mut walk = PageTableWalk::new(&ttbr0);
    assert_eq!(walk.next_table(), Some((0, 0x4000_0000)));

    let table_a = 0x0000_0000_0005_0003u64;
    let table_b = 0x0000_0000_0006_0003u64;
    let block = 0x0060_0000_8000_0401u64;
    let reported = walk.visit(0, &[table_a, 0, block, table_b]);
    assert_eq!(reported, vec![block]);
    // The last entry is taken first, so the first table is read next.
    assert_eq!(walk.next_table(), Some((1, 0x5_0000)));
    assert_eq!(walk.visit(3, &[1, 0, table_a]), vec![table_a, 0, 1]);
    assert_eq!(walk.next_table(), Some((1, 0x6_0000)));
    assert_eq!(walk.visit(1, &[]), Vec::<u64>::new());
    assert_eq!(walk.next_table(), None);
    assert_eq!(walk.next_table(), None);
}
