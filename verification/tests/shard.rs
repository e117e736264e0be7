use tileserver::shard::{table_name, u32_decimal};

#[test]
fn low_zoom_uses_single_table() {
    assert_eq!(table_name(0, 0, 0), "blocks");
    assert_eq!(table_name(9, 100_000, 100_000), "blocks");
}

#[test]
fn high_zoom_shards_by_block() {
    assert_eq!(table_name(10, 1024, 512), "blocks_10_2_1");
}

#[test]
fn shard_division_rounds_down() {
    assert_eq!(table_name(12, 511, 1023), "blocks_12_0_1");
    assert_eq!(table_name(31, 0, 0), "blocks_31_0_0");
}

#[test]
fn decimal_formatting() {
    assert_eq!(u32_decimal(0), "0");
    assert_eq!(u32_decimal(7), "7");
    assert_eq!(u32_decimal(10), "10");
    assert_eq!(u32_decimal(4_294_967_295), "4294967295");
}
