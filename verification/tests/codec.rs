use std::collections::HashMap;

use openssl::rsa::Rsa;

use rfid_supply_chain::builder::RfidBuilder;
use rfid_supply_chain::bytes::{be_decode, be_encode, le_decode, le_encode};
use rfid_supply_chain::canon::canon_rfid;
use rfid_supply_chain::chip_data::ChipData;
use rfid_supply_chain::database::DatabaseModel;
use rfid_supply_chain::error::RfidDataParseError;
use rfid_supply_chain::key::{lookup_key, PublicKey};
use rfid_supply_chain::rfid::{crc_field, RfidData};
use rfid_supply_chain::signature::digest_from_block;
use rfid_supply_chain::supply_chain::SupplyChainEntry;

fn five() -> u32 {
    5.0f32.to_bits()
}

fn empty_tag() -> RfidData {
    RfidBuilder::default()
        .chip_data(42, five(), five(), five(), five())
        .build()
}

fn entry(id: u32, fill: u8) -> SupplyChainEntry {
    SupplyChainEntry {
        pub_key: id,
        signature: vec![fill; 256],
    }
}

#[test]
fn empty_chain_round_trip() {
    let tag = empty_tag();
    assert!(tag.valid_crc());
    let wire = tag.encode();
    assert_eq!(wire.len(), 36);
    let back = RfidData::decode(&wire).unwrap();
    assert_eq!(back.crc, tag.crc);
    assert_eq!(back.chip_data, tag.chip_data);
    assert_eq!(back.chip_data.chip_id, 42);
    assert_eq!(f32::from_bits(back.chip_data.freq), 5.0);
    assert_eq!(f32::from_bits(back.chip_data.voltage), 5.0);
    assert_eq!(f32::from_bits(back.chip_data.temp), 5.0);
    assert_eq!(f32::from_bits(back.chip_data.time), 5.0);
    assert!(back.entries.is_empty());
    assert!(back.valid_crc());
}

#[test]
fn wire_layout_of_an_empty_tag() {
    let wire = empty_tag().encode();
    let mut body = vec![0u8, 0u8];
    body.extend_from_slice(&[0u8; 15]);
    body.push(42);
    for _ in 0..4 {
        body.extend_from_slice(&[0x40, 0xa0, 0x00, 0x00]);
    }
    assert_eq!(&wire[2..], &body[..]);
    let checksum = crc::crc16::checksum_x25(&body);
    assert_eq!(wire[0], (checksum & 0xff) as u8);
    assert_eq!(wire[1], (checksum >> 8) as u8);
}

#[test]
fn checksum_field_holds_the_checksum_with_bytes_exchanged() {
    assert_eq!(crc_field(0x906e), 0x6e90);
    assert_eq!(crc_field(0x00ff), 0xff00);
    assert_eq!(crc_field(0xab00), 0x00ab);
    assert_eq!(crc_field(0), 0);

    let mut tag = RfidData::default();
    tag.entries.push(entry(7, 0x11));
    let body = tag.body_bytes();
    let checksum = crc::crc16::checksum_x25(&body);
    assert_eq!(tag.calc_crc(), checksum.swap_bytes());
    assert_eq!(crc::crc16::checksum_x25(b"123456789"), 0x906e);
}

#[test]
fn wire_layout_of_entries() {
    let mut tag = empty_tag();
    tag.entries.push(entry(0x0a0b0c0d, 0x55));
    tag.entries.push(entry(1, 0x66));
    let wire = tag.encode();
    assert_eq!(wire.len(), 36 + 2 * 260);
    assert_eq!(&wire[2..4], &[0u8, 2u8]);
    assert_eq!(&wire[36..40], &[0x0d, 0x0c, 0x0b, 0x0a]);
    assert!(wire[40..296].iter().all(|b| *b == 0x55));
    assert_eq!(&wire[296..300], &[1, 0, 0, 0]);
    assert!(wire[300..556].iter().all(|b| *b == 0x66));

    let back = RfidData::decode(&wire).unwrap();
    assert_eq!(back.entries.len(), 2);
    assert_eq!(back.entries[0].pub_key, 0x0a0b0c0d);
    assert_eq!(back.entries[0].signature, vec![0x55u8; 256]);
    assert_eq!(back.entries[1].pub_key, 1);
    assert_eq!(back.entries[1].signature, vec![0x66u8; 256]);
    assert_eq!(back.crc, tag.calc_crc());
}

#[test]
fn encode_computes_the_checksum_afresh() {
    let mut tag = empty_tag();
    let right = tag.crc;
    tag.crc = right.wrapping_add(1);
    assert!(!tag.valid_crc());
    let back = RfidData::decode(&tag.encode()).unwrap();
    assert_eq!(back.crc, right);
    assert!(back.valid_crc());
}

#[test]
fn decode_ignores_surplus_bytes() {
    let mut tag = empty_tag();
    tag.entries.push(entry(3, 0x01));
    let tag = RfidBuilder::from(tag).build();
    let mut wire = tag.encode();
    wire.extend_from_slice(&[9u8; 100]);
    let back = RfidData::decode(&wire).unwrap();
    assert_eq!(back.entries.len(), 1);
    assert_eq!(back.crc, tag.crc);
    assert_eq!(back.chip_data, tag.chip_data);
    assert_eq!(back.entries[0].signature, tag.entries[0].signature);
}

#[test]
fn decode_reports_truncation() {
    let mut tag = empty_tag();
    tag.entries.push(entry(3, 0x01));
    let wire = tag.encode();
    assert_eq!(RfidData::decode(&[]).err(), Some(RfidDataParseError::Truncated));
    assert_eq!(
        RfidData::decode(&wire[..35]).err(),
        Some(RfidDataParseError::Truncated)
    );
    assert_eq!(
        RfidData::decode(&wire[..36]).err(),
        Some(RfidDataParseError::Truncated)
    );
    assert_eq!(
        RfidData::decode(&wire[..wire.len() - 1]).err(),
        Some(RfidDataParseError::Truncated)
    );
    assert!(RfidData::decode(&wire).is_ok());
    assert_eq!(
        RfidDataParseError::Truncated.message(),
        "Failed to parse struct: failed to fill whole buffer"
    );
}

#[test]
fn entry_counter_keeps_sixteen_bits() {
    let mut wire = vec![0u8; 36];
    wire[2] = 0xff;
    wire[3] = 0xff;
    assert_eq!(
        RfidData::decode(&wire).err(),
        Some(RfidDataParseError::Truncated)
    );
    wire[2] = 0;
    wire[3] = 0;
    assert_eq!(RfidData::decode(&wire).unwrap().entries.len(), 0);
}

#[test]
fn telemetry_block_bytes() {
    let chip = ChipData {
        chip_id: 0x0102_0304_0506_0708_090a_0b0c_0d0e_0f10,
        freq: 1.0f32.to_bits(),
        voltage: (-2.5f32).to_bits(),
        temp: 0x7fc0_0000,
        time: 0,
    };
    let bytes = chip.to_bytes();
    let mut expected: Vec<u8> = (1u8..=16).collect();
    expected.extend_from_slice(&[0x3f, 0x80, 0, 0]);
    expected.extend_from_slice(&[0xc0, 0x20, 0, 0]);
    expected.extend_from_slice(&[0x7f, 0xc0, 0, 0]);
    expected.extend_from_slice(&[0, 0, 0, 0]);
    assert_eq!(bytes, expected);
    assert_eq!(ChipData::from_bytes(&bytes), Ok(chip));
    assert_eq!(
        ChipData::from_bytes(&bytes[..31]),
        Err(RfidDataParseError::Truncated)
    );
    assert_eq!(ChipData::default().to_bytes(), vec![0u8; 32]);
}

#[test]
fn entry_bytes() {
    let e = entry(0x01020304, 0xaa);
    let bytes = e.to_bytes();
    assert_eq!(bytes.len(), 260);
    assert_eq!(&bytes[..4], &[4, 3, 2, 1]);
    let back = SupplyChainEntry::from_bytes(&bytes).unwrap();
    assert_eq!(back.pub_key, 0x01020304);
    assert_eq!(back.signature, vec![0xaau8; 256]);
    assert_eq!(
        SupplyChainEntry::from_bytes(&bytes[..259]).err(),
        Some(RfidDataParseError::Truncated)
    );
}

#[test]
fn fixed_width_numbers() {
    assert_eq!(be_encode(0x0102, 2), vec![1, 2]);
    assert_eq!(le_encode(0x0102, 2), vec![2, 1]);
    assert_eq!(be_encode(0x01020304, 4), vec![1, 2, 3, 4]);
    assert_eq!(le_encode(0x01020304, 4), vec![4, 3, 2, 1]);
    assert_eq!(be_encode(0x010203, 2), vec![2, 3]);
    assert_eq!(be_encode(7, 0), Vec::<u8>::new());
    assert_eq!(be_decode(&[9, 1, 2, 3, 4, 9], 1, 4), 0x01020304);
    assert_eq!(le_decode(&[9, 1, 2, 3, 4, 9], 1, 4), 0x04030201);
    assert_eq!(be_decode(&[0xff; 16], 0, 16), u128::MAX);
    assert_eq!(le_decode(&be_encode(u128::MAX - 5, 16), 0, 0), 0);
    assert_eq!(be_decode(&be_encode(u128::MAX - 5, 16), 0, 16), u128::MAX - 5);
    assert_eq!(le_decode(&le_encode(u128::MAX - 5, 16), 0, 16), u128::MAX - 5);
}

#[test]
fn digest_is_cut_from_the_block() {
    let block: Vec<u8> = (0u8..51).collect();
    assert_eq!(digest_from_block(&block), (19u8..51).collect::<Vec<u8>>());
    let long: Vec<u8> = (0u8..200).collect();
    assert_eq!(digest_from_block(&long), (19u8..51).collect::<Vec<u8>>());
    let short: Vec<u8> = (0u8..21).collect();
    let mut expected = vec![19u8, 20u8];
    expected.extend_from_slice(&[0u8; 30]);
    assert_eq!(digest_from_block(&short), expected);
    assert_eq!(digest_from_block(&Vec::new()), vec![0u8; 32]);
}

#[test]
fn canonical_form_of_a_tag() {
    let mut texts: HashMap<u32, Vec<u8>> = HashMap::new();
    texts.insert(five(), serde_json::to_vec(&5.0f32).unwrap());
    let mut tag = empty_tag();
    let crc = tag.crc;
    let empty = canon_rfid(&tag, &texts).unwrap();
    assert_eq!(
        String::from_utf8(empty).unwrap(),
        format!(
            "{{\"crc\":{},\"chip_data\":{{\"chip_id\":42,\"freq\":5.0,\"voltage\":5.0,\"temp\":5.0,\"time\":5.0}},\"entries\":[]}}",
            crc
        )
    );

    tag.entries.push(SupplyChainEntry {
        pub_key: 4000000000,
        signature: b"hello world".to_vec(),
    });
    tag.entries.push(SupplyChainEntry {
        pub_key: 0,
        signature: vec![0xfb, 0xff],
    });
    tag.chip_data.chip_id = u128::MAX;
    tag.crc = 10;
    let full = canon_rfid(&tag, &texts).unwrap();
    assert_eq!(
        String::from_utf8(full.clone()).unwrap(),
        "{\"crc\":10,\"chip_data\":{\"chip_id\":340282366920938463463374607431768211455,\"freq\":5.0,\"voltage\":5.0,\"temp\":5.0,\"time\":5.0},\"entries\":[{\"pub_key\":4000000000,\"signature\":\"aGVsbG8gd29ybGQ=\"},{\"pub_key\":0,\"signature\":\"+/8=\"}]}"
    );
    let parsed: serde_json::Value = serde_json::from_slice(&full).unwrap();
    assert_eq!(parsed["crc"].as_u64(), Some(10));
    assert_eq!(parsed["chip_data"]["freq"].as_f64(), Some(5.0));
    assert_eq!(parsed["entries"][0]["pub_key"].as_u64(), Some(4000000000));
    assert_eq!(parsed["entries"].as_array().unwrap().len(), 2);

    tag.chip_data.temp = 1.5f32.to_bits();
    assert_eq!(canon_rfid(&tag, &texts), None);
}

#[test]
fn public_key_storage_key_and_partition() {
    let mut key = PublicKey::new(0x01020304, vec![0, 1], "dist1".to_string());
    assert_eq!(key.id, 0x01020304);
    assert_eq!(key.key, vec![0, 1]);
    assert_eq!(key.distributor_name, "dist1");
    assert_eq!(key.id(), 0x01020304);
    assert_eq!(PublicKey::id_type_to_bytes(0x01020304), vec![4, 3, 2, 1]);
    assert_eq!(PublicKey::tree(), "public_keys");
    key.set_id(2);
    assert_eq!(key.id, 2);
    assert_eq!(key.key, vec![0, 1]);
    assert_eq!(key.id_to_bytes(), vec![2, 0, 0, 0]);
}

#[test]
fn registry_lookup() {
    let mut keys: HashMap<u32, PublicKey> = HashMap::new();
    keys.insert(5, PublicKey::new(5, vec![1, 2, 3], "five".to_string()));
    assert_eq!(lookup_key(&keys, 5).map(|k| k.key.clone()), Some(vec![1, 2, 3]));
    assert!(lookup_key(&keys, 6).is_none());
}

#[test]
fn test_to_json() {
    let keypair1 = Rsa::generate(2048).unwrap();
    let keypair2 = Rsa::generate(2048).unwrap();

    let key_id1: u32 = 55;
    let key_id2: u32 = 0;

    let mut key_map: HashMap<u32, PublicKey> = HashMap::new();
    key_map.insert(
        key_id1,
        PublicKey::new(
            key_id1,
            keypair1.public_key_to_pem().unwrap(),
            "Sauce Firm".to_string(),
        ),
    );
    key_map.insert(
        key_id2,
        PublicKey::new(
            key_id2,
            keypair2.public_key_to_pem().unwrap(),
            "Cool Chip 123".to_string(),
        ),
    );
    let data = RfidBuilder::default()
        .chip_data(42, five(), five(), five(), five())
        .add_entry(
            keypair1.private_key_to_pem().unwrap(),
            key_id1,
            key_id2,
            &key_map,
        )
        .unwrap()
        .build();

    data.validate_chain(&key_map, key_map.get(&key_id2).unwrap().clone())
        .unwrap();

    let mut texts: HashMap<u32, Vec<u8>> = HashMap::new();
    texts.insert(five(), serde_json::to_vec(&5.0f32).unwrap());
    let json = String::from_utf8(canon_rfid(&data, &texts).unwrap()).unwrap();
    println!("{}", json);
    let parsed: serde_json::Value = serde_json::from_str(&json).unwrap();
    assert_eq!(parsed["entries"][0]["pub_key"].as_u64(), Some(55));
    assert_eq!(parsed["chip_data"]["chip_id"].as_u64(), Some(42));
}
