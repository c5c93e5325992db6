use byteorder::{BigEndian, LittleEndian, NativeEndian};
use zbus_core::byte_order::{
    endian_sig_of_one, native_endian_sig, read_u32, write_u32, ByteOrder,
};
use zbus_core::EndianSig;

#[test]
fn endian_signatures() {
    assert_eq!(LittleEndian::endian_signature(), EndianSig::Little);
    assert_eq!(BigEndian::endian_signature(), EndianSig::Big);
    assert_eq!(NativeEndian::endian_signature(), native_endian_sig());
    let one = 1u32.to_ne_bytes();
    assert_eq!(native_endian_sig() == EndianSig::Little, one[0] == 1);
}

#[test]
fn u32_in_both_orders() {
    let buf = [0xaa, 0x01, 0x02, 0x03, 0x04, 0xbb];
    assert_eq!(read_u32(EndianSig::Little, &buf, 1), 0x04030201);
    assert_eq!(read_u32(EndianSig::Big, &buf, 1), 0x01020304);
    assert_eq!(read_u32(EndianSig::Big, &buf, 2), 0x020304bb);
    let mut out = vec![7];
    write_u32(EndianSig::Little, &mut out, 0x04030201);
    write_u32(EndianSig::Big, &mut out, 0x04030201);
    assert_eq!(out, vec![7, 1, 2, 3, 4, 4, 3, 2, 1]);
    for n in [0u32, 1, 255, 256, 65535, 65536, 0x7fff_ffff, 0x8000_0000, u32::MAX] {
        for sig in [EndianSig::Little, EndianSig::Big] {
            let mut out = Vec::new();
            write_u32(sig, &mut out, n);
            assert_eq!(read_u32(sig, &out, 0), n);
        }
    }
}

#[test]
fn the_order_of_the_bytes_of_one() {
    assert_eq!(endian_sig_of_one([1, 0, 0, 0]), EndianSig::Little);
    assert_eq!(endian_sig_of_one([0, 0, 0, 1]), EndianSig::Big);
    assert_eq!(endian_sig_of_one(1u32.to_le_bytes()), EndianSig::Little);
    assert_eq!(endian_sig_of_one(1u32.to_be_bytes()), EndianSig::Big);
    assert_eq!(endian_sig_of_one(1u32.to_ne_bytes()), native_endian_sig());
}
