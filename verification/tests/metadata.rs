use ccm_reborn::metadata::{
    campaign_target_from_metadata, decode_ccm_metadata, decode_utf16_metadata, metadata_field,
};

#[test]
fn reads_utf16le_ccm_metadata() {
    let text = "title=Real Scale WoL\r\nauthor=Test\r\ncampaign=WoL\r\nversion=2.8\r\n";
    let mut bytes = vec![0xff, 0xfe];
    for code_unit in text.encode_utf16() {
        bytes.extend(code_unit.to_le_bytes());
    }

    let decoded = decode_ccm_metadata(&bytes).unwrap();
    assert_eq!(metadata_field(&decoded, "title"), Some("Real Scale WoL".into()));
    assert_eq!(campaign_target_from_metadata(&decoded).unwrap(), "Maps/Campaign");
}

#[test]
fn reads_utf16be_and_utf8_metadata() {
    let text = "title=Über Mod\ncampaign=Heart of the Swarm\n";
    let mut bytes = vec![0xfe, 0xff];
    for code_unit in text.encode_utf16() {
        bytes.extend(code_unit.to_be_bytes());
    }
    assert_eq!(decode_ccm_metadata(&bytes).unwrap(), text);
    assert_eq!(decode_ccm_metadata(text.as_bytes()).unwrap(), text);
    let astral = "title=\u{1F47E}\n";
    let mut le = vec![0xff, 0xfe];
    for code_unit in astral.encode_utf16() {
        le.extend(code_unit.to_le_bytes());
    }
    assert_eq!(decode_ccm_metadata(&le).unwrap(), astral);
}

#[test]
fn metadata_decoding_errors_name_the_problem() {
    assert_eq!(
        decode_ccm_metadata(&[0xff, 0xfe, 0x41]).unwrap_err(),
        "metadata.txt has an incomplete UTF-16 character."
    );
    assert_eq!(
        decode_utf16_metadata(&[0x00, 0xd8], true).unwrap_err(),
        "metadata.txt contains invalid UTF-16 text."
    );
    assert_eq!(
        decode_ccm_metadata(&[0xc3, 0x28]).unwrap_err(),
        "metadata.txt must be valid UTF-8 or UTF-16 text."
    );
}

#[test]
fn metadata_field_skips_empty_values_and_ignores_key_case() {
    let text = "Title=\n TITLE = Second \ntitle=Third\n";
    assert_eq!(metadata_field(text, "title"), Some("Second".into()));
    assert_eq!(metadata_field(text, "author"), None);
}

#[test]
fn campaign_keywords_map_to_branches_in_family_order() {
    assert_eq!(campaign_target_from_metadata("campaign=HotS").unwrap(), "Maps/Campaign/swarm");
    assert_eq!(campaign_target_from_metadata("campaign = Legacy of the Void").unwrap(), "Maps/Campaign/void");
    assert_eq!(campaign_target_from_metadata("campaign=Nova Covert Ops").unwrap(), "Maps/Campaign/nova");
    assert_eq!(campaign_target_from_metadata("campaign=Wings of Liberty").unwrap(), "Maps/Campaign");
    assert_eq!(
        campaign_target_from_metadata("title=x\n").unwrap_err(),
        "metadata.txt has no campaign= value."
    );
    assert_eq!(
        campaign_target_from_metadata("campaign=Brood War\ncampaign=WoL").unwrap_err(),
        "metadata.txt campaign= is not a campaign CCM Reborn understands."
    );
}
