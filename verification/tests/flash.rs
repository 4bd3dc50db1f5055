use st7735_driver::w25q64::{Jedec, JEDEC_REQUEST, W25Q64};
use st7735_driver::w25q64_hal;
use st7735_driver::w25q64_hal::W25Q64Hal;

#[test]
fn request_is_the_opcode_and_three_fillers() {
    assert_eq!(JEDEC_REQUEST, [0x9F, 0xFF, 0xFF, 0xFF]);
    assert_eq!(W25Q64::new().request(), [0x9F, 0xFF, 0xFF, 0xFF]);
    assert_eq!(W25Q64Hal::new().request(), [0x9F, 0xFF, 0xFF, 0xFF]);
}

#[test]
fn identifier_of_a_winbond_w25q64() {
    let jedec = W25Q64::new().read_jedec(&[0x00, 0xEF, 0x40, 0x17]);
    assert_eq!(jedec, Jedec { vendor_id: 0xEF, device_id: 0x4017 });
}

#[test]
fn reply_to_the_opcode_is_ignored() {
    let mut flash = W25Q64::new();
    assert_eq!(flash.read_jedec(&[0x00, 1, 2, 3]), flash.read_jedec(&[0xFF, 1, 2, 3]));
}

#[test]
fn device_bytes_come_upper_byte_first() {
    let mut flash = W25Q64::new();
    assert_eq!(flash.read_jedec(&[0, 0, 0x01, 0x00]).device_id, 0x0100);
    assert_eq!(flash.read_jedec(&[0, 0, 0x00, 0x01]).device_id, 0x0001);
    assert_eq!(flash.read_jedec(&[0, 0xFF, 0xFF, 0xFF]).device_id, 0xFFFF);
    assert_eq!(flash.read_jedec(&[0, 0xFF, 0xFF, 0xFF]).vendor_id, 0xFF);
}

#[test]
fn default_identifier_is_all_zero() {
    assert_eq!(Jedec::default(), Jedec { vendor_id: 0, device_id: 0 });
    assert_eq!(
        w25q64_hal::Jedec::default(),
        w25q64_hal::Jedec { vendor_id: 0, device_id: 0 }
    );
}

#[test]
fn identifier_over_any_bus() {
    let jedec = W25Q64Hal::new().read_jedec(&[0x00, 0xEF, 0x40, 0x17]);
    assert_eq!(jedec, w25q64_hal::Jedec { vendor_id: 0xEF, device_id: 0x4017 });
    assert_eq!(W25Q64Hal::new().read_jedec(&[9, 0xC8, 0x12, 0x34]).device_id, 0x1234);
}
