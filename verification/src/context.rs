//! The site-wide context: the author's identity and a build tag. The
//! identity comes from configuration (read by the surrounding program); the
//! build tag is either handed in from the environment or generated from the
//! current instant.

use vstd::prelude::*;

verus! {

/// The author's identity, as the configuration file supplies it.
#[derive(Debug, Clone)]
pub struct SneakyMeta {
    pub name: String,
    pub email: String,
    pub title: String,
}

/// The build tag of the running site.
#[derive(Debug, Clone)]
pub struct SneakyBuildInfo {
    pub hash: String,
}

/// Everything the site knows about itself: who writes it and which build
/// serves it.
#[derive(Debug, Clone)]
pub struct SneakyContext {
    pub me: SneakyMeta,
    pub build_info: SneakyBuildInfo,
}

/// The name of the configuration file the identity is read from.
pub fn default_config_file() -> (r: &'static str)
    ensures
        r@ == "sc.toml"@,
{
    "sc.toml"
}

/// What base64's standard engine encodes bytes to.
pub uninterp spec fn b64_of(bytes: Seq<u8>) -> Seq<char>;

/// Relies on base64's `Engine::encode` with the standard alphabet and
/// padding: the encoding is a pure function of the input bytes, four output
/// characters for every three input bytes begun.
#[verifier::external_body]
fn b64_standard(bytes: &[u8]) -> (r: String)
    ensures
        r@ == b64_of(bytes@),
        r@.len() == 4 * ((bytes@.len() + 2) / 3),
{
    base64::Engine::encode(&base64::engine::general_purpose::STANDARD, bytes)
}

/// Relies on `chrono::Utc::now` and its `Display` rendering: the current
/// instant as text. The clock makes the answer change from call to call, so
/// nothing is promised of it.
#[verifier::external_body]
fn now_utc_string() -> (r: String) {
    chrono::Utc::now().to_string()
}

/// The tag text a development build is named by.
pub open spec fn spec_dev_tag(stamp: Seq<char>) -> Seq<char> {
    "dev-"@ + stamp
}

impl SneakyBuildInfo {
    /// A build tag carried in from the environment.
    pub fn from_hash(hash: String) -> (r: SneakyBuildInfo)
        ensures
            r.hash == hash,
    {
        SneakyBuildInfo { hash }
    }

    /// A development build tag: `dev-` plus the current instant, encoded
    /// with base64's standard engine.
    pub fn generated() -> (r: SneakyBuildInfo)
        ensures
            exists|stamp: Seq<char>|
                r.hash@ == b64_of(vstd::utf8::encode_utf8(#[trigger] spec_dev_tag(stamp))),
    {
        let now = now_utc_string();
        let mut tag = String::from_str("dev-");
        tag.append(now.as_str());
        let hash = b64_standard(tag.as_str().as_bytes());
        proof {
            assert(tag@ == spec_dev_tag(now@));
        }
        SneakyBuildInfo { hash }
    }
}

impl Default for SneakyBuildInfo {
    /// The default build tag is a freshly generated development tag.
    fn default() -> (r: Self)
        ensures
            exists|stamp: Seq<char>|
                r.hash@ == b64_of(vstd::utf8::encode_utf8(#[trigger] spec_dev_tag(stamp))),
    {
        SneakyBuildInfo::generated()
    }
}

impl SneakyContext {
    /// Assembles the context from the parsed identity and the build hash the
    /// environment supplies, if any; without one, a development tag is
    /// generated.
    pub fn assemble(me: SneakyMeta, env_hash: Option<String>) -> (r: SneakyContext)
        ensures
            r.me == me,
            (match env_hash {
                Some(h) => r.build_info.hash == h,
                None => exists|stamp: Seq<char>|
                    r.build_info.hash@ == b64_of(
                        vstd::utf8::encode_utf8(#[trigger] spec_dev_tag(stamp)),
                    ),
            }),
    {
        let build_info = match env_hash {
            Some(h) => SneakyBuildInfo::from_hash(h),
            None => SneakyBuildInfo::generated(),
        };
        SneakyContext { me, build_info }
    }
}

impl Default for SneakyContext {
    /// The stock identity with a generated build tag.
    fn default() -> (r: Self)
        ensures
            r.me.name@ == "Zachary Corivdae"@,
            r.me.email@ == "zach@sneakycrow.dev"@,
            r.me.title@ == "Artist & Engineer"@,
            exists|stamp: Seq<char>|
                r.build_info.hash@ == b64_of(vstd::utf8::encode_utf8(#[trigger] spec_dev_tag(stamp))),
    {
        SneakyContext {
            me: SneakyMeta {
                name: String::from_str("Zachary Corivdae"),
                email: String::from_str("zach@sneakycrow.dev"),
                title: String::from_str("Artist & Engineer"),
            },
            build_info: SneakyBuildInfo::generated(),
        }
    }
}

} // verus!
