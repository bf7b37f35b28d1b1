use browser_ui::ident::{ProposalID, RawID};
use browser_ui::key::{append_upper_hex, hex_digit_text};
use browser_ui::patch::{Field, Segment};

fn expected(id: &RawID) -> String {
    format!("{:X}_{:X}.{:X}@{:X}", id.type_id, id.instance_id, id.version, id.machine)
}

#[test]
fn key_names_type_instance_version_and_machine() {
    let id = RawID { instance_id: 0x1F00, type_id: 0xAB, machine: 2, version: 0 };
    assert_eq!(id.key(), "AB_1F00.0@2");
}

#[test]
fn key_of_the_zero_address() {
    let id = RawID { instance_id: 0, type_id: 0, machine: 0, version: 0 };
    assert_eq!(id.key(), "0_0.0@0");
}

#[test]
fn key_of_the_largest_address() {
    let id = RawID {
        instance_id: u32::MAX,
        type_id: u16::MAX,
        machine: u8::MAX,
        version: u8::MAX,
    };
    assert_eq!(id.key(), "FFFF_FFFFFFFF.FF@FF");
}

#[test]
fn key_agrees_with_upper_hex_formatting() {
    for instance_id in [0u32, 1, 9, 10, 15, 16, 17, 255, 256, 4095, 4096, 65535, 1 << 31] {
        for type_id in [0u16, 7, 16, 0x1234] {
            for version in [0u8, 16, 200] {
                let id = RawID { instance_id, type_id, machine: version / 3, version };
                assert_eq!(id.key(), expected(&id));
            }
        }
    }
}

#[test]
fn different_addresses_have_different_keys() {
    let ids = [
        RawID { instance_id: 0x11, type_id: 0x1, machine: 0, version: 0 },
        RawID { instance_id: 0x1, type_id: 0x11, machine: 0, version: 0 },
        RawID { instance_id: 0x1, type_id: 0x1, machine: 0x1, version: 0 },
        RawID { instance_id: 0x1, type_id: 0x1, machine: 0, version: 0x1 },
        RawID { instance_id: 0x10, type_id: 0x1, machine: 0, version: 0 },
    ];
    for (i, a) in ids.iter().enumerate() {
        for (j, b) in ids.iter().enumerate() {
            assert_eq!(a.key() == b.key(), i == j);
        }
    }
}

#[test]
fn numbers_are_written_in_upper_case_hexadecimal() {
    let mut text = String::from("x");
    append_upper_hex(&mut text, 0);
    append_upper_hex(&mut text, 0xDEADBEEF);
    append_upper_hex(&mut text, u64::MAX);
    assert_eq!(text, "x0DEADBEEFFFFFFFFFFFFFFFFF");
    let digits: Vec<&str> = (0..16).map(hex_digit_text).collect();
    assert_eq!(digits.concat(), "0123456789ABCDEF");
}

#[test]
fn steps_of_a_path_have_their_texts() {
    assert_eq!(Segment::Field(Field::LaneAsphalt).text(), "laneAsphalt");
    assert_eq!(Segment::Name("tree").text(), "tree");
    assert_eq!(Segment::Proposal(ProposalID(0x2A)).text(), "2A");
    let id = RawID { instance_id: 5, type_id: 3, machine: 1, version: 2 };
    assert_eq!(Segment::Entity(id).text(), "3_5.2@1");
}
