use gibbername::codec::{codec_round_trip, decode_gibbername, encode_gibbername};
use gibbername::GibberError;

#[test]
fn encodes_gibbername() {
    let height: u64 = 216;
    let index: u32 = 2;
    let gname = encode_gibbername(height, index);
    assert_eq!(gname, "lol".to_string());
}

#[test]
fn decodes_gibbername() {
    let gname = "hehe-lol";
    let (height, index) = gibbercode::decode(gname);
    assert_eq!(height, 216);
    assert_eq!(index, 2);
}

#[test]
fn make_new_gibbername() {}

#[test]
fn round_trip_is_identity() {
    let coords: [(u64, u32); 6] = [
        (0, 0),
        (216, 2),
        (1, 1),
        (123456789, 4321),
        (u64::MAX, u32::MAX),
        (3, 0),
    ];
    for (height, index) in coords {
        assert_eq!(codec_round_trip(height, index), (height, index));
        let name = encode_gibbername(height, index);
        assert_eq!(decode_gibbername(&name), Ok((height, index)));
    }
}

#[test]
fn rejects_height_out_of_range() {
    // twenty base-17 digits of value 16 decode far beyond any block height
    let gname = "q".repeat(20);
    assert_eq!(decode_gibbername(&gname), Err(GibberError::InvalidIdentifier));
}

#[test]
fn rejects_index_out_of_range() {
    // twenty base-5 digits of value 4 decode far beyond any block position
    let gname = "y".repeat(20);
    assert_eq!(decode_gibbername(&gname), Err(GibberError::InvalidIdentifier));
}
