use herdr::bundle::{
    carrier_image_bytes, check_entry, crc32, extract_entry, index_location, local_os_arch, pack,
    read_index, seal, BundleEntry, BundleIndex, ExtractError, PackInput, FOOTER_LEN,
    FORMAT_VERSION,
};
use serde_json::Value;

fn number(value: u64) -> Value {
    Value::from(value)
}

fn index_json(index: &BundleIndex) -> Vec<u8> {
    let mut object = serde_json::Map::new();
    object.insert("format".to_string(), number(index.format as u64));
    object.insert(
        "herdr_version".to_string(),
        Value::from(index.herdr_version.clone()),
    );
    if let Some(commit) = &index.build_commit {
        object.insert("build_commit".to_string(), Value::from(commit.clone()));
    }
    object.insert("image_len".to_string(), number(index.image_len));
    let entries: Vec<Value> = index
        .entries
        .iter()
        .map(|entry| {
            let mut e = serde_json::Map::new();
            e.insert("os".to_string(), Value::from(entry.os.clone()));
            e.insert("arch".to_string(), Value::from(entry.arch.clone()));
            e.insert("offset".to_string(), number(entry.offset));
            e.insert("compressed_len".to_string(), number(entry.compressed_len));
            e.insert(
                "uncompressed_len".to_string(),
                number(entry.uncompressed_len),
            );
            e.insert("crc32".to_string(), number(entry.crc32 as u64));
            Value::Object(e)
        })
        .collect();
    object.insert("entries".to_string(), Value::Array(entries));
    serde_json::to_vec(&Value::Object(object)).unwrap()
}

fn parse_index(bytes: &[u8]) -> BundleIndex {
    let value: Value = serde_json::from_slice(bytes).unwrap();
    let text = |v: &Value, name: &str| v[name].as_str().unwrap().to_string();
    BundleIndex {
        format: value["format"].as_u64().unwrap() as u32,
        herdr_version: text(&value, "herdr_version"),
        build_commit: value["build_commit"].as_str().map(|s| s.to_string()),
        image_len: value["image_len"].as_u64().unwrap(),
        entries: value["entries"]
            .as_array()
            .unwrap()
            .iter()
            .map(|e| BundleEntry {
                os: text(e, "os"),
                arch: text(e, "arch"),
                offset: e["offset"].as_u64().unwrap(),
                compressed_len: e["compressed_len"].as_u64().unwrap(),
                uncompressed_len: e["uncompressed_len"].as_u64().unwrap(),
                crc32: e["crc32"].as_u64().unwrap() as u32,
            })
            .collect(),
    }
}

/// Packs onto a carrier file as the program does: the image of the carrier, the payload, the
/// index and the footer.
fn pack_file(
    carrier: &[u8],
    inputs: &Vec<PackInput>,
    version: &str,
    commit: Option<&str>,
) -> (Vec<u8>, BundleIndex) {
    let image_len = read_index(carrier).map(|bytes| parse_index(&bytes).image_len);
    let image = carrier_image_bytes(carrier.to_vec(), image_len);
    let (payload, index) = pack(image, inputs, version, commit.map(|c| c.to_string()));
    let file = seal(payload, &index_json(&index));
    (file, index)
}

fn sample_inputs() -> (Vec<PackInput>, Vec<u8>, Vec<u8>) {
    let linux_bytes = b"this-is-the-linux-x86_64-herdr-binary-contents".repeat(50);
    let mac_bytes = b"different-bytes-for-the-macos-aarch64-build!!".repeat(40);
    let inputs = vec![
        PackInput {
            os: "linux".into(),
            arch: "x86_64".into(),
            binary: linux_bytes.clone(),
        },
        PackInput {
            os: "macos".into(),
            arch: "aarch64".into(),
            binary: mac_bytes.clone(),
        },
    ];
    (inputs, linux_bytes, mac_bytes)
}

#[test]
fn crc32_matches_known_vector() {
    // Canonical IEEE CRC-32 check value for "123456789".
    assert_eq!(crc32(b"123456789"), 0xCBF4_3926);
    assert_eq!(crc32(b""), 0);
}

#[test]
fn pack_then_read_index_round_trips() {
    let carrier_bytes = b"NATIVE-CARRIER-EXECUTABLE-IMAGE".repeat(20);
    let (inputs, linux_bytes, mac_bytes) = sample_inputs();

    let (out, returned) = pack_file(&carrier_bytes, &inputs, "9.9.9", Some("deadbee"));

    let index = parse_index(&read_index(&out).expect("bundle present"));
    assert_eq!(index, returned);
    assert_eq!(index.format, FORMAT_VERSION);
    assert_eq!(index.herdr_version, "9.9.9");
    assert_eq!(index.build_commit.as_deref(), Some("deadbee"));
    assert_eq!(index.image_len, carrier_bytes.len() as u64);

    let linux = index.entry_for("linux", "x86_64").expect("linux entry");
    assert_eq!(linux.uncompressed_len, linux_bytes.len() as u64);
    assert_eq!(linux.crc32, crc32(&linux_bytes));
    let mac = index.entry_for("macos", "aarch64").expect("mac entry");
    assert_eq!(mac.uncompressed_len, mac_bytes.len() as u64);
    assert_eq!(mac.crc32, crc32(&mac_bytes));
}

#[test]
fn extract_entry_returns_original_bytes() {
    let (inputs, linux_bytes, mac_bytes) = sample_inputs();
    let (out, index) = pack_file(b"CARRIER", &inputs, "1.0.0", None);

    let linux = extract_entry(&out, index.entry_for("linux", "x86_64").unwrap()).unwrap();
    assert_eq!(linux, linux_bytes);
    let mac = extract_entry(&out, index.entry_for("macos", "aarch64").unwrap()).unwrap();
    assert_eq!(mac, mac_bytes);
}

#[test]
fn carrier_image_prefix_is_unchanged() {
    // The "still runs natively" property: the executable image at the front of
    // the fat file is byte-for-byte the original carrier.
    let carrier_bytes = b"NATIVE-CARRIER-EXECUTABLE-IMAGE".repeat(20);
    let (inputs, _, _) = sample_inputs();
    let (fat, _) = pack_file(&carrier_bytes, &inputs, "1.0.0", None);

    assert_eq!(&fat[..carrier_bytes.len()], &carrier_bytes[..]);
    assert!(fat.len() > carrier_bytes.len());
}

#[test]
fn read_index_returns_none_for_plain_file() {
    assert!(read_index(&b"just an ordinary binary with no bundle".repeat(10)).is_none());
    assert!(read_index(b"abc").is_none());
}

#[test]
fn repack_is_idempotent() {
    let carrier_bytes = b"NATIVE-CARRIER".repeat(30);
    let (inputs, _, _) = sample_inputs();
    let (fat1, index1) = pack_file(&carrier_bytes, &inputs, "2.0.0", Some("abc"));

    // Re-pack the already-fat binary: the existing payload must be stripped, so
    // image_len and the leading image stay equal to the original carrier.
    let (fat2, index2) = pack_file(&fat1, &inputs, "2.0.0", Some("abc"));

    assert_eq!(index2.image_len, carrier_bytes.len() as u64);
    assert_eq!(index1.entries, index2.entries);
    assert_eq!(&fat2[..carrier_bytes.len()], &carrier_bytes[..]);
    assert_eq!(fat1, fat2);
}

#[test]
fn corrupted_payload_fails_extract() {
    let (inputs, _, _) = sample_inputs();
    let (mut bytes, index) = pack_file(b"CARRIER", &inputs, "1.0.0", None);
    let entry = index.entry_for("linux", "x86_64").unwrap();

    // Flip a byte in the middle of the compressed payload.
    let mid = (entry.offset + entry.compressed_len / 2) as usize;
    bytes[mid] ^= 0xFF;

    assert!(extract_entry(&bytes, entry).is_err());
}

#[test]
fn entry_for_finds_present_and_misses_absent() {
    let (inputs, _, _) = sample_inputs();
    let (_, index) = pack_file(b"CARRIER", &inputs, "1.0.0", None);

    assert!(index.entry_for("linux", "x86_64").is_some());
    assert!(index.entry_for("linux", "aarch64").is_none());
    assert!(index.entry_for("windows", "x86_64").is_none());
}

#[test]
fn unknown_format_version_reads_as_none() {
    let (inputs, _, _) = sample_inputs();
    let (mut bytes, _) = pack_file(b"CARRIER-IMAGE-BYTES", &inputs, "1.0.0", None);

    // Rewrite the footer's format field (offset 16 from end of footer) to a
    // future version. A current reader must fall back cleanly to None.
    let len = bytes.len();
    let format_at = len - FOOTER_LEN as usize + 16;
    bytes[format_at..format_at + 4].copy_from_slice(&999u32.to_le_bytes());

    assert!(read_index(&bytes).is_none());
}

#[test]
fn layout_does_not_depend_on_the_order_of_the_inputs() {
    let (mut inputs, _, _) = sample_inputs();
    let (one, first) = pack_file(b"CARRIER", &inputs, "1.0.0", None);
    inputs.reverse();
    let (two, second) = pack_file(b"CARRIER", &inputs, "1.0.0", None);
    assert_eq!(one, two);
    assert_eq!(first, second);
    let keys: Vec<String> = first.entries.iter().map(|e| e.asset_key()).collect();
    assert_eq!(keys, vec!["linux-x86_64", "macos-aarch64"]);
}

#[test]
fn entries_lie_one_behind_the_other() {
    let (inputs, _, _) = sample_inputs();
    let (payload, index) = pack(b"IMAGE".to_vec(), &inputs, "1.0.0", None);
    assert_eq!(index.entries[0].offset, 5);
    assert_eq!(
        index.entries[1].offset,
        5 + index.entries[0].compressed_len
    );
    assert_eq!(
        payload.len() as u64,
        index.entries[1].offset + index.entries[1].compressed_len
    );
    assert!(index.entries[0].compressed_len < index.entries[0].uncompressed_len);
}

#[test]
fn footer_says_where_the_index_lies() {
    let file = seal(b"payload".to_vec(), b"{}");
    assert_eq!(file.len(), 7 + 2 + FOOTER_LEN as usize);
    assert_eq!(read_index(&file), Some(b"{}".to_vec()));
    let footer = &file[file.len() - FOOTER_LEN as usize..];
    assert_eq!(index_location(file.len() as u64, footer), Some((7, 2)));
    // A footer that points past its file is no index.
    assert_eq!(index_location(30, footer), None);
    assert_eq!(&footer[20..], b"HERDRBND");
}

#[test]
fn carrier_is_cut_only_where_its_index_says_so() {
    assert_eq!(carrier_image_bytes(b"abcdef".to_vec(), None), b"abcdef");
    assert_eq!(carrier_image_bytes(b"abcdef".to_vec(), Some(2)), b"ab");
    assert_eq!(carrier_image_bytes(b"abcdef".to_vec(), Some(9)), b"abcdef");
}

#[test]
fn extraction_names_each_fault() {
    let (inputs, linux_bytes, _) = sample_inputs();
    let (file, index) = pack_file(b"CARRIER", &inputs, "1.0.0", None);
    let entry = |offset, compressed_len, uncompressed_len, crc32| BundleEntry {
        os: "linux".to_string(),
        arch: "x86_64".to_string(),
        offset,
        compressed_len,
        uncompressed_len,
        crc32,
    };
    let good = &index.entries[0];

    let past = entry(file.len() as u64, 1, 0, 0);
    let error = extract_entry(&file, &past).unwrap_err();
    assert_eq!(error, ExtractError::Truncated);
    assert_eq!(error.message(&past), "failed to fill whole buffer");

    let longer = entry(
        good.offset,
        good.compressed_len,
        good.uncompressed_len + 1,
        good.crc32,
    );
    let error = extract_entry(&file, &longer).unwrap_err();
    assert_eq!(
        error,
        ExtractError::Length {
            expected: good.uncompressed_len + 1,
            got: good.uncompressed_len
        }
    );
    assert_eq!(
        error.message(&longer),
        "linux-x86_64 payload length mismatch: expected 2301, got 2300"
    );

    let other_sum = entry(
        good.offset,
        good.compressed_len,
        good.uncompressed_len,
        good.crc32 ^ 1,
    );
    let error = extract_entry(&file, &other_sum).unwrap_err();
    assert_eq!(error, ExtractError::Checksum);
    assert_eq!(
        error.message(&other_sum),
        "linux-x86_64 payload failed CRC-32 check"
    );

    let garbage = vec![0xFFu8; 8];
    let broken = entry(0, 8, 8, 0);
    let error = extract_entry(&garbage, &broken).unwrap_err();
    assert!(matches!(error, ExtractError::Inflate { .. }));
    assert!(error
        .message(&broken)
        .starts_with("failed to decompress linux-x86_64 payload: "));

    assert_eq!(check_entry(Ok(linux_bytes.clone()), good), Ok(linux_bytes));
    assert_eq!(
        check_entry(Err("bad".to_string()), good),
        Err(ExtractError::Inflate {
            reason: "bad".to_string()
        })
    );
}

#[test]
fn what_follows_an_entry_does_not_matter() {
    let (inputs, linux_bytes, _) = sample_inputs();
    let (payload, index) = pack(b"IMAGE".to_vec(), &inputs, "1.0.0", None);
    let mut longer = payload.clone();
    longer.extend_from_slice(b"more");
    assert_eq!(
        extract_entry(&longer, &index.entries[0]).unwrap(),
        linux_bytes
    );
}

#[test]
fn only_packed_platforms_have_a_name() {
    assert_eq!(local_os_arch("linux", "x86_64"), Some(("linux", "x86_64")));
    assert_eq!(
        local_os_arch("macos", "aarch64"),
        Some(("macos", "aarch64"))
    );
    assert_eq!(local_os_arch("windows", "x86_64"), None);
    assert_eq!(local_os_arch("linux", "riscv64"), None);
}
