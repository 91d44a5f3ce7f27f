use mining_bridge::bridge::{Bridge, DownstreamLink, SetNewPrevHash, Submit};
use mining_bridge::error::{Error, RequiredField};
use mining_bridge::binary::{Seq0255, B0255, B064K, U256};
use mining_bridge::new_template::NewTemplate;
use mining_bridge::utils::{Extranonce, HexU32Be, PrevHash};

const LEGACY_HASH: &str = "00000000000000000004bc9fc532c790f32a5170fa9461110319d1c1b1c2e2d3";

fn job_template(template_id: u64, future_template: bool) -> NewTemplate {
    NewTemplate {
        template_id,
        future_template,
        version: 0x2000_0000,
        coinbase_tx_version: 2,
        coinbase_prefix: B0255::from_bytes(vec![0x03, 0x12, 0x9e, 0x0b]).unwrap(),
        coinbase_tx_input_sequence: 0xffff_ffff,
        coinbase_tx_value_remaining: 625_000_000,
        coinbase_tx_outputs_count: 0,
        coinbase_tx_outputs: B064K::from_bytes(vec![]).unwrap(),
        coinbase_tx_locktime: 0,
        merkle_path: Seq0255::new(vec![]).unwrap(),
    }
}

fn prev_hash_for(template_id: u64) -> SetNewPrevHash {
    SetNewPrevHash {
        template_id,
        prev_hash: PrevHash::from_legacy_hex(LEGACY_HASH).unwrap(),
        header_timestamp: 0x6400_0000,
        n_bits: 0x1705_3894,
    }
}

fn new_bridge() -> Bridge {
    Bridge::new(Extranonce::from_bytes(vec![0xaa, 0xbb]).unwrap(), 4, 9).unwrap()
}

fn submit_for(job_id: u64) -> Submit {
    Submit {
        job_id,
        extra_nonce2: Extranonce::from_bytes(vec![1, 2, 3, 4]).unwrap(),
        time: HexU32Be(0x6400_0001),
        nonce: HexU32Be(0xdead_beef),
        version_bits: Some(HexU32Be(0x0000_e000)),
    }
}

#[test]
fn a_bridge_leaves_room_for_the_tag() {
    let prefix = Extranonce::from_bytes(vec![0; 26]).unwrap();
    assert!(Bridge::new(prefix.clone(), 4, 0).is_ok());
    assert_eq!(
        Bridge::new(prefix, 5, 0).err(),
        Some(Error::CodecLength { len: 5, max: 4 })
    );
    let long = Extranonce::from_bytes(vec![0; 31]).unwrap();
    assert_eq!(
        Bridge::new(long, 0, 0).err(),
        Some(Error::CodecLength { len: 0, max: 0 })
    );
    let exact = Extranonce::from_bytes(vec![0; 30]).unwrap();
    assert!(Bridge::new(exact, 0, 0).is_ok());
}

#[test]
fn links_get_tags_in_turn() {
    let mut bridge = new_bridge();
    let first = bridge.register_downstream().unwrap();
    let second = bridge.register_downstream().unwrap();
    assert_eq!(
        first,
        DownstreamLink {
            tag: 0,
            extranonce1: Extranonce::from_bytes(vec![0xaa, 0xbb, 0x00, 0x00]).unwrap(),
            extranonce2_len: 4,
        }
    );
    assert_eq!(
        second,
        DownstreamLink {
            tag: 1,
            extranonce1: Extranonce::from_bytes(vec![0xaa, 0xbb, 0x00, 0x01]).unwrap(),
            extranonce2_len: 4,
        }
    );
}

#[test]
fn no_two_links_share_an_extranonce() {
    let mut bridge = new_bridge();
    let mut seen = std::collections::HashSet::new();
    for expected in 0..0x1_0000u32 {
        let link = bridge.register_downstream().unwrap();
        assert_eq!(link.tag as u32, expected);
        assert_eq!(link.extranonce1.len(), 4);
        assert!(seen.insert(link.extranonce1.to_bytes()));
    }
    assert_eq!(seen.len(), 0x1_0000);
    // every tag is taken
    assert_eq!(
        bridge.register_downstream(),
        Err(Error::CodecLength { len: 3, max: 2 })
    );
    assert_eq!(
        bridge.register_downstream(),
        Err(Error::CodecLength { len: 3, max: 2 })
    );
}

#[test]
fn tags_are_written_high_byte_first() {
    let mut bridge = new_bridge();
    let mut last = bridge.register_downstream().unwrap();
    for _ in 0..0x0102 {
        last = bridge.register_downstream().unwrap();
    }
    assert_eq!(last.tag, 0x0102);
    assert_eq!(last.extranonce1.to_bytes(), vec![0xaa, 0xbb, 0x01, 0x02]);
}

#[test]
fn a_present_template_is_announced_once_a_hash_is_in_force() {
    let mut bridge = new_bridge();
    assert!(bridge.on_new_template(job_template(1, false)).is_none());
    let notify = bridge.on_set_new_prev_hash(prev_hash_for(0)).unwrap();
    assert_eq!(notify.fields.job_id, 1);
    assert_eq!(notify.fields.prev_hash, LEGACY_HASH);
    assert_eq!(notify.fields.version, "20000000");
    assert!(notify.fields.clean_jobs);
    assert_eq!(notify.bits, "17053894");
    assert_eq!(notify.time, "64000000");
    // prefix of 2, tag of 2 and 4 of the miner's, behind 4 bytes of prefix
    assert_eq!(
        notify.fields.coin_base1,
        format!("0200000001{}ffffffff0c03129e0b", "00".repeat(32))
    );
    assert_eq!(notify.fields.coin_base2, "ffffffff0000000000");

    let notify = bridge.on_new_template(job_template(2, false)).unwrap();
    assert_eq!(notify.fields.job_id, 2);
    assert!(!notify.fields.clean_jobs);
    assert_eq!(notify.bits, "17053894");
}

#[test]
fn a_future_template_is_announced_with_its_hash() {
    let mut bridge = new_bridge();
    assert!(bridge.on_new_template(job_template(5, true)).is_none());
    // a hash for another template: nothing is in force yet
    assert!(bridge.on_set_new_prev_hash(prev_hash_for(4)).is_none());
    assert!(bridge.on_new_template(job_template(6, true)).is_none());
    let notify = bridge.on_set_new_prev_hash(prev_hash_for(6)).unwrap();
    assert_eq!(notify.fields.job_id, 6);
    assert!(notify.fields.clean_jobs);
    // a future template changes no job
    assert!(bridge.on_new_template(job_template(7, true)).is_none());
}

#[test]
fn a_submission_becomes_a_share() {
    let mut bridge = new_bridge();
    bridge.register_downstream().unwrap();
    let link = bridge.register_downstream().unwrap();
    bridge.on_new_template(job_template(1, false));
    bridge.on_set_new_prev_hash(prev_hash_for(1));
    let share = bridge.translate_submit(link.tag, submit_for(1)).unwrap();
    assert_eq!(share.channel_id, 9);
    assert_eq!(share.sequence_number, 0);
    assert_eq!(share.job_id, 1);
    assert_eq!(share.nonce, 0xdead_beef);
    assert_eq!(share.ntime, 0x6400_0001);
    assert_eq!(share.version, 0x0000_e000);
    assert_eq!(share.extranonce.to_bytes(), vec![0x00, 0x01, 1, 2, 3, 4]);
    let next = bridge.translate_submit(0, submit_for(1)).unwrap();
    assert_eq!(next.sequence_number, 1);
    assert_eq!(next.extranonce.to_bytes(), vec![0x00, 0x00, 1, 2, 3, 4]);
}

#[test]
fn a_submission_for_an_earlier_job_is_still_translated() {
    let mut bridge = new_bridge();
    let link = bridge.register_downstream().unwrap();
    bridge.on_set_new_prev_hash(prev_hash_for(0));
    for id in 1..=16 {
        assert!(bridge.on_new_template(job_template(id, false)).is_some());
    }
    // the job in force is 16; the 15 before it are known too
    for id in 1..=16 {
        let share = bridge.translate_submit(link.tag, submit_for(id)).unwrap();
        assert_eq!(share.job_id, id);
        assert_eq!(share.sequence_number as u64, id - 1);
    }
    // one job more, and the oldest is forgotten
    bridge.on_new_template(job_template(17, false));
    assert_eq!(
        bridge.translate_submit(link.tag, submit_for(1)),
        Err(Error::ProtocolMismatch { job_id: 1 })
    );
    for id in 2..=17 {
        assert!(bridge.translate_submit(link.tag, submit_for(id)).is_ok());
    }
}

#[test]
fn a_submission_without_version_bits_is_refused() {
    let mut bridge = new_bridge();
    let link = bridge.register_downstream().unwrap();
    bridge.on_new_template(job_template(1, false));
    bridge.on_set_new_prev_hash(prev_hash_for(1));
    let mut submit = submit_for(1);
    submit.version_bits = None;
    assert_eq!(
        bridge.translate_submit(link.tag, submit),
        Err(Error::ProtocolMissingField(RequiredField::VersionBits))
    );
    // it is refused for that reason whatever else is wrong with it
    let mut submit = submit_for(99);
    submit.version_bits = None;
    assert_eq!(
        bridge.translate_submit(7, submit),
        Err(Error::ProtocolMissingField(RequiredField::VersionBits))
    );
    // the bridge goes on, and no sequence number was used up
    let share = bridge.translate_submit(link.tag, submit_for(1)).unwrap();
    assert_eq!(share.sequence_number, 0);
}

#[test]
fn a_submission_for_an_unknown_job_or_link_is_refused() {
    let mut bridge = new_bridge();
    let link = bridge.register_downstream().unwrap();
    assert_eq!(
        bridge.translate_submit(link.tag, submit_for(1)),
        Err(Error::ProtocolMismatch { job_id: 1 })
    );
    bridge.on_new_template(job_template(1, false));
    // without a hash there is no job yet
    assert_eq!(
        bridge.translate_submit(link.tag, submit_for(1)),
        Err(Error::ProtocolMismatch { job_id: 1 })
    );
    bridge.on_set_new_prev_hash(prev_hash_for(1));
    assert!(bridge.translate_submit(link.tag, submit_for(1)).is_ok());
    assert_eq!(
        bridge.translate_submit(link.tag, submit_for(2)),
        Err(Error::ProtocolMismatch { job_id: 2 })
    );
    assert_eq!(
        bridge.translate_submit(link.tag + 1, submit_for(1)),
        Err(Error::ProtocolMismatch { job_id: 1 })
    );
}

#[test]
fn a_submission_with_a_wrong_extranonce_is_refused() {
    let mut bridge = new_bridge();
    let link = bridge.register_downstream().unwrap();
    bridge.on_new_template(job_template(1, false));
    bridge.on_set_new_prev_hash(prev_hash_for(1));
    let mut short = submit_for(1);
    short.extra_nonce2 = Extranonce::from_bytes(vec![1, 2, 3]).unwrap();
    assert_eq!(
        bridge.translate_submit(link.tag, short),
        Err(Error::CodecLength { len: 3, max: 4 })
    );
    let mut long = submit_for(1);
    long.extra_nonce2 = Extranonce::from_bytes(vec![0; 32]).unwrap();
    assert_eq!(
        bridge.translate_submit(link.tag, long),
        Err(Error::CodecLength { len: 32, max: 4 })
    );
}
