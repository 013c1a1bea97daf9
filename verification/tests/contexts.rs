use articles::context::{default_config_file, SneakyBuildInfo, SneakyContext, SneakyMeta};
use base64::Engine;

#[test]
fn stock_identity() {
    let ctx = SneakyContext::default();
    assert_eq!(ctx.me.name, "Zachary Corivdae");
    assert_eq!(ctx.me.email, "zach@sneakycrow.dev");
    assert_eq!(ctx.me.title, "Artist & Engineer");
}

#[test]
fn config_file_name() {
    assert_eq!(default_config_file(), "sc.toml");
}

#[test]
fn environment_hash_wins() {
    let me = SneakyMeta {
        name: String::from("n"),
        email: String::from("e"),
        title: String::from("t"),
    };
    let ctx = SneakyContext::assemble(me, Some(String::from("release-42")));
    assert_eq!(ctx.build_info.hash, "release-42");
    assert_eq!(ctx.me.name, "n");
}

#[test]
fn generated_hash_encodes_a_dev_tag() {
    let info = SneakyBuildInfo::generated();
    let bytes = base64::engine::general_purpose::STANDARD
        .decode(info.hash.as_bytes())
        .expect("the generated hash is standard base64");
    let tag = String::from_utf8(bytes).expect("the tag is text");
    assert!(tag.starts_with("dev-"));
}

#[test]
fn default_build_info_is_generated() {
    let info = SneakyBuildInfo::default();
    assert!(!info.hash.is_empty());
}
