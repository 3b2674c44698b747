use transmission_proxy::codec::Bencode;
use transmission_proxy::metainfo::{decode_metainfo, encode_metainfo, rewrite_trackers};
use transmission_proxy::tracker::TrackerRule;

fn rule(from: &str, to: &str) -> TrackerRule {
    TrackerRule::replace(from.to_string(), to.to_string()).unwrap()
}

const SAMPLE: &[u8] = b"d8:announce12:http://old/x13:announce-listll12:http://old/x13:http://keep/yee4:infod6:lengthi123e4:name3:fooee";

#[test]
fn untouched_torrent_round_trips_byte_for_byte() {
    // the rule set matches nothing, so rewrite-then-encode reproduces
    // the input exactly
    let bytes = SAMPLE.to_vec();
    let meta = decode_metainfo(&bytes).unwrap();
    let rules = vec![rule("^zzz-never-matches$", "x")];
    let rewritten = rewrite_trackers(meta, &rules).unwrap();
    assert_eq!(encode_metainfo(rewritten), bytes);
}

#[test]
fn announce_and_tiers_are_rewritten() {
    let bytes = SAMPLE.to_vec();
    let meta = decode_metainfo(&bytes).unwrap();
    let rules = vec![rule("^http://old/(.*)$", "http://new/$1")];
    let rewritten = rewrite_trackers(meta, &rules).unwrap();
    let out = encode_metainfo(rewritten);
    assert_eq!(
        out,
        b"d8:announce12:http://new/x13:announce-listll12:http://new/x13:http://keep/yee4:infod6:lengthi123e4:name3:fooee"
            .to_vec()
    );
}

#[test]
fn removed_announce_drops_the_key() {
    let bytes = b"d8:announce12:http://old/x4:infod4:name3:fooee".to_vec();
    let meta = decode_metainfo(&bytes).unwrap();
    let rules = vec![rule("^http://old/.*$", "")];
    let rewritten = rewrite_trackers(meta, &rules).unwrap();
    assert_eq!(encode_metainfo(rewritten), b"d4:infod4:name3:fooee".to_vec());
}

#[test]
fn removed_tier_urls_drop_out_of_the_list() {
    let bytes = b"d13:announce-listll12:http://old/x13:http://keep/yee4:infod4:name3:fooee"
        .to_vec();
    let meta = decode_metainfo(&bytes).unwrap();
    let rules = vec![rule("^http://old/.*$", "")];
    let rewritten = rewrite_trackers(meta, &rules).unwrap();
    assert_eq!(
        encode_metainfo(rewritten),
        b"d13:announce-listll13:http://keep/yee4:infod4:name3:fooee".to_vec()
    );
}

#[test]
fn non_dict_document_is_refused() {
    assert!(decode_metainfo(&b"i42e".to_vec()).is_err());
    assert!(decode_metainfo(&b"l4:spame".to_vec()).is_err());
}

#[test]
fn wrongly_typed_announce_is_a_shape_error() {
    let bytes = b"d8:announcei42ee".to_vec();
    let meta = decode_metainfo(&bytes).unwrap();
    let rules = vec![rule("a", "b")];
    assert!(rewrite_trackers(meta, &rules).is_err());
}

#[test]
fn wrongly_shaped_announce_list_is_a_shape_error() {
    // a flat list of strings instead of a list of tiers
    let bytes = b"d13:announce-listl12:http://old/xee".to_vec();
    let meta = decode_metainfo(&bytes).unwrap();
    let rules = vec![rule("a", "b")];
    assert!(rewrite_trackers(meta, &rules).is_err());
}

#[test]
fn other_keys_are_untouched_by_matching_rules() {
    // the rule would match the name field's text, but only announce
    // fields run through the rules
    let bytes = b"d8:announce12:http://old/x4:name12:http://old/xe".to_vec();
    let meta = decode_metainfo(&bytes).unwrap();
    let rules = vec![rule("^http://old/(.*)$", "http://new/$1")];
    let rewritten = rewrite_trackers(meta, &rules).unwrap();
    let out = encode_metainfo(rewritten);
    assert_eq!(out, b"d8:announce12:http://new/x4:name12:http://old/xe".to_vec());
    // and the codec accepts its own output
    let reparsed = decode_metainfo(&out).unwrap();
    match &reparsed.dict[1].1 {
        Bencode::Bytes(b) => assert_eq!(b, &b"http://old/x".to_vec()),
        _ => panic!("name must stay a byte string"),
    }
}
