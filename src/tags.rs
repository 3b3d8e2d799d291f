//! The tag bundle of a segment, drawn from pools of plausible values.
use vstd::prelude::*;

use crate::random::{pick_one, random_below};

verus! {

/// Pools of plausible values that tags are drawn from.
#[derive(Debug, Clone)]
pub struct TagPools {
    pub releases: Vec<&'static str>,
    pub environments: Vec<&'static str>,
    pub span_ops: Vec<&'static str>,
    pub transactions: Vec<&'static str>,
    pub http_methods: Vec<&'static str>,
    pub root_ops: Vec<&'static str>,
    pub browser_names: Vec<&'static str>,
    pub sdks: Vec<&'static str>,
    pub platforms: Vec<&'static str>,
    pub thread_names: Vec<&'static str>,
}

/// A version number `major.minor.patch`.
#[derive(Debug, Clone, Copy, PartialEq, Eq, Structural)]
pub struct SdkVersion {
    pub major: u8,
    pub minor: u8,
    pub patch: u8,
}

/// The tags shared by every span of a segment.
#[derive(Debug, Clone)]
pub struct SentryTags {
    pub release: &'static str,
    pub user: u32,
    pub user_id: u32,
    pub user_ip: String,
    pub user_username: String,
    pub user_email: String,
    pub environment: &'static str,
    pub op: &'static str,
    pub transaction: &'static str,
    pub transaction_method: &'static str,
    pub transaction_op: &'static str,
    pub browser_name: &'static str,
    pub sdk_name: &'static str,
    pub sdk_version: SdkVersion,
    pub platform: &'static str,
    pub thread_id: u32,
    pub thread_name: &'static str,
}

/// The largest user id, exclusive.
pub const USER_ID_LIMIT: u32 = 100_000;

/// `v` is a value of `pool`, or empty where the pool is.
pub open spec fn is_drawn_from(v: &'static str, pool: Seq<&'static str>) -> bool {
    if pool.len() == 0 {
        v@ == ""@
    } else {
        pool.contains(v)
    }
}

/// `t` holds values of the pools, one user as id, name and email, and an SDK
/// version below 3.10.10.
pub open spec fn is_tags_from(t: SentryTags, pools: TagPools) -> bool {
    &&& is_drawn_from(t.release, pools.releases@)
    &&& is_drawn_from(t.environment, pools.environments@)
    &&& is_drawn_from(t.op, pools.span_ops@)
    &&& is_drawn_from(t.transaction, pools.transactions@)
    &&& is_drawn_from(t.transaction_method, pools.http_methods@)
    &&& is_drawn_from(t.transaction_op, pools.root_ops@)
    &&& is_drawn_from(t.browser_name, pools.browser_names@)
    &&& is_drawn_from(t.sdk_name, pools.sdks@)
    &&& is_drawn_from(t.platform, pools.platforms@)
    &&& is_drawn_from(t.thread_name, pools.thread_names@)
    &&& 1 <= t.user < USER_ID_LIMIT
    &&& t.user_id == t.user
    &&& t.user_username@ == t.user_email@
    &&& t.user_email@.contains('@')
    &&& t.user_ip@.len() >= 7
    &&& t.sdk_version.major < 3 && t.sdk_version.minor < 10 && t.sdk_version.patch < 10
}

/// Relies on fake's FreeEmail faker: a user name and a provider joined by `@`.
#[verifier::external_body]
fn fake_email() -> (r: String)
    ensures
        r@.contains('@'),
{
    fake::Fake::fake::<String>(&fake::faker::internet::en::FreeEmail())
}

/// Relies on fake's IPv4 faker: four decimal bytes joined by dots.
#[verifier::external_body]
fn fake_ipv4() -> (r: String)
    ensures
        r@.len() >= 7,
{
    fake::Fake::fake::<String>(&fake::faker::internet::en::IPv4())
}

/// A random value of the pool, or the empty text where the pool is empty.
fn draw(pool: &Vec<&'static str>) -> (r: &'static str)
    ensures
        is_drawn_from(r, pool@),
{
    match pick_one(pool) {
        Some(v) => *v,
        None => {
            proof {
                reveal_strlit("");
            }
            ""
        },
    }
}

/// A random number below `n`, which fits in a byte.
fn small_random(n: u8) -> (r: u8)
    requires
        n > 0,
    ensures
        r < n,
{
    random_below(n as u64) as u8
}

/// A fresh tag bundle with values drawn from `pools`.
pub(crate) fn draw_tags(pools: &TagPools) -> (r: SentryTags)
    ensures
        is_tags_from(r, *pools),
{
    let user_id = (random_below((USER_ID_LIMIT - 1) as u64) + 1) as u32;
    let user_email = fake_email();
    SentryTags {
        release: draw(&pools.releases),
        user: user_id,
        user_id,
        user_ip: fake_ipv4(),
        user_username: user_email.clone(),
        user_email,
        environment: draw(&pools.environments),
        op: draw(&pools.span_ops),
        transaction: draw(&pools.transactions),
        transaction_method: draw(&pools.http_methods),
        transaction_op: draw(&pools.root_ops),
        browser_name: draw(&pools.browser_names),
        sdk_name: draw(&pools.sdks),
        sdk_version: SdkVersion {
            major: small_random(3),
            minor: small_random(10),
            patch: small_random(10),
        },
        platform: draw(&pools.platforms),
        thread_id: random_below(0x1_0000_0000) as u32,
        thread_name: draw(&pools.thread_names),
    }
}

} // verus!
