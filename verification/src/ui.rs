//! The web pages of the admin interface: page shell, dashboard, bucket and
//! object browsers, upload form and admin panel, and where each form sends
//! the browser afterwards.

use vstd::prelude::*;
use crate::text::{chars_of, string_from_chars, copy_str, push_str, push_decimal, dec_digits};
use crate::scan::{split_on, has_prefix, starts_with_chars, slice_chars, split_chars, str_eq, lemma_flatten_new_step};
use crate::storage::{BucketInfo, BucketStats, ObjectMetadata, ListObjectsResult, trim_end_matches};
use crate::metrics::{MetricsSnapshot, BucketMetrics, spec_format_bytes, spec_format_uptime,
    format_bytes, format_uptime};
use crate::error::S3Error;
use crate::text::sviews;
use vstd::string::StringSliceAdditionalSpecFns;
use vstd::utf8::{encode_utf8, decode_utf8, is_char_boundary};

verus! {

// ---------------------------------------------------------------------------
// Text helpers

/// The text of the first `n` UTF-8 bytes of `s`.
pub open spec fn byte_prefix(s: Seq<char>, n: nat) -> Seq<char> {
    decode_utf8(encode_utf8(s).take(n as int))
}

/// `&s[..n]`: the first `n` bytes of `s`, which must end at a character
/// boundary.
fn str_byte_prefix(s: &str, n: usize) -> (r: String)
    requires
        is_char_boundary(s.spec_bytes(), n as int),
    ensures
        r@ == byte_prefix(s@, n as nat),
{
    proof {
        vstd::utf8::encode_utf8_valid_utf8(s@);
    }
    let (head, _) = s.split_at(n);
    proof {
        vstd::utf8::encode_utf8_decode_utf8(head@);
        assert(s.spec_bytes().subrange(0, n as int) =~= encode_utf8(s@).take(n as int));
    }
    copy_str(head)
}

/// `s` without the leading `prefix` when it starts with it.
pub open spec fn strip_or_keep(s: Seq<char>, prefix: Seq<char>) -> Seq<char> {
    if has_prefix(s, prefix) {
        s.skip(prefix.len() as int)
    } else {
        s
    }
}

fn strip_or_keep_exec(s: &str, prefix: &str) -> (r: String)
    ensures
        r@ == strip_or_keep(s@, prefix@),
{
    let c = chars_of(s);
    let p = chars_of(prefix);
    if starts_with_chars(&c, &p) {
        let t = slice_chars(&c, p.len(), c.len());
        assert(t@ =~= s@.skip(prefix@.len() as int));
        string_from_chars(&t)
    } else {
        string_from_chars(&c)
    }
}

/// The position of the last `c` in `s`.
pub open spec fn last_index_of(s: Seq<char>, c: char) -> Option<int>
    decreases s.len(),
{
    if s.len() == 0 {
        None
    } else if s.last() == c {
        Some(s.len() - 1)
    } else {
        last_index_of(s.drop_last(), c)
    }
}

fn last_index_exec(s: &Vec<char>, end: usize, c: char) -> (r: Option<usize>)
    requires
        end <= s.len(),
    ensures
        match r {
            Some(i) => last_index_of(s@.take(end as int), c) == Some(i as int) && i < end,
            None => last_index_of(s@.take(end as int), c) is None,
        },
{
    let mut j: usize = end;
    while j > 0
        invariant
            j <= end <= s.len(),
            last_index_of(s@.take(end as int), c) == last_index_of(s@.take(j as int), c),
        decreases j,
    {
        assert(s@.take(j as int).drop_last() =~= s@.take(j - 1));
        if s[j - 1] == c {
            return Some(j - 1);
        }
        j = j - 1;
    }
    None
}

// ---------------------------------------------------------------------------
// The page shell

/// A page of the interface: the shared head, style and navigation around
/// the content.
pub open spec fn spec_page(title: Seq<char>, content: Seq<char>) -> Seq<char> {
    r##"<!DOCTYPE html>
<html lang="en">
<head>
<meta charset="UTF-8">
<meta name="viewport" content="width=device-width, initial-scale=1.0">
<title>"##@ + title + r##" — MiniMinio</title>
<style>
* { margin: 0; padding: 0; box-sizing: border-box; }
body { font-family: -apple-system, BlinkMacSystemFont, 'Segoe UI', Roboto, sans-serif; background: #f5f5f5; color: #333; }
.layout { display: flex; min-height: 100vh; }
.sidebar { width: 220px; background: #1a1a2e; color: #fff; padding: 20px 0; flex-shrink: 0; }
.sidebar h1 { font-size: 20px; padding: 0 20px 20px; border-bottom: 1px solid #333; margin-bottom: 10px; }
.sidebar h1 span { color: #e94560; }
.sidebar a { display: block; padding: 10px 20px; color: #ccc; text-decoration: none; font-size: 14px; }
.sidebar a:hover, .sidebar a.active { background: #16213e; color: #fff; }
.main { flex: 1; padding: 30px; max-width: 1200px; }
.main h2 { margin-bottom: 20px; color: #1a1a2e; }
.card { background: #fff; border-radius: 8px; padding: 20px; margin-bottom: 20px; box-shadow: 0 1px 3px rgba(0,0,0,0.1); }
.card h3 { margin-bottom: 12px; color: #1a1a2e; font-size: 16px; }
.stats { display: grid; grid-template-columns: repeat(auto-fit, minmax(200px, 1fr)); gap: 16px; margin-bottom: 24px; }
.stat { background: #fff; border-radius: 8px; padding: 20px; box-shadow: 0 1px 3px rgba(0,0,0,0.1); }
.stat .label { font-size: 12px; color: #888; text-transform: uppercase; letter-spacing: 1px; }
.stat .value { font-size: 28px; font-weight: 700; color: #1a1a2e; margin-top: 4px; }
table { width: 100%; border-collapse: collapse; }
th { text-align: left; padding: 10px 12px; border-bottom: 2px solid #eee; font-size: 12px; text-transform: uppercase; color: #888; letter-spacing: 0.5px; }
td { padding: 10px 12px; border-bottom: 1px solid #eee; font-size: 14px; }
tr:hover td { background: #f8f9fa; }
a.link { color: #e94560; text-decoration: none; }
a.link:hover { text-decoration: underline; }
.btn { display: inline-block; padding: 8px 16px; border-radius: 4px; border: none; cursor: pointer; font-size: 14px; text-decoration: none; }
.btn-primary { background: #e94560; color: #fff; }
.btn-primary:hover { background: #c73e54; }
.btn-danger { background: #dc3545; color: #fff; }
.btn-danger:hover { background: #bd2130; }
.btn-sm { padding: 4px 10px; font-size: 12px; }
input[type="text"], input[type="password"], input[type="file"] { padding: 8px 12px; border: 1px solid #ddd; border-radius: 4px; font-size: 14px; width: 100%; max-width: 400px; }
input[type="text"]:focus, input[type="password"]:focus { outline: none; border-color: #e94560; }
.form-group { margin-bottom: 16px; }
.form-group label { display: block; margin-bottom: 4px; font-size: 14px; font-weight: 500; }
.breadcrumb { margin-bottom: 20px; font-size: 14px; color: #888; }
.breadcrumb a { color: #e94560; text-decoration: none; }
.empty { text-align: center; padding: 40px; color: #888; }
.flash { padding: 12px 16px; border-radius: 4px; margin-bottom: 16px; }
.flash-success { background: #d4edda; color: #155724; }
.flash-error { background: #f8d7da; color: #721c24; }
.inline-form { display: inline; }
</style>
</head>
<body>
<div class="layout">
<nav class="sidebar">
<h1><span>Mini</span>Minio</h1>
<a href="/ui">Dashboard</a>
<a href="/ui/buckets">Buckets</a>
<a href="/ui/admin">Admin</a>
</nav>
<div class="main">
"##@ + content + r##"
</div>
</div>
</body>
</html>"##@
}

/// A page of the interface around `content`.
pub fn page(title: &str, content: &str) -> (r: String)
    ensures
        r@ == spec_page(title@, content@),
{
    let mut s = String::new();
    push_str(&mut s, r##"<!DOCTYPE html>
<html lang="en">
<head>
<meta charset="UTF-8">
<meta name="viewport" content="width=device-width, initial-scale=1.0">
<title>"##);
    push_str(&mut s, title);
    push_str(&mut s, r##" — MiniMinio</title>
<style>
* { margin: 0; padding: 0; box-sizing: border-box; }
body { font-family: -apple-system, BlinkMacSystemFont, 'Segoe UI', Roboto, sans-serif; background: #f5f5f5; color: #333; }
.layout { display: flex; min-height: 100vh; }
.sidebar { width: 220px; background: #1a1a2e; color: #fff; padding: 20px 0; flex-shrink: 0; }
.sidebar h1 { font-size: 20px; padding: 0 20px 20px; border-bottom: 1px solid #333; margin-bottom: 10px; }
.sidebar h1 span { color: #e94560; }
.sidebar a { display: block; padding: 10px 20px; color: #ccc; text-decoration: none; font-size: 14px; }
.sidebar a:hover, .sidebar a.active { background: #16213e; color: #fff; }
.main { flex: 1; padding: 30px; max-width: 1200px; }
.main h2 { margin-bottom: 20px; color: #1a1a2e; }
.card { background: #fff; border-radius: 8px; padding: 20px; margin-bottom: 20px; box-shadow: 0 1px 3px rgba(0,0,0,0.1); }
.card h3 { margin-bottom: 12px; color: #1a1a2e; font-size: 16px; }
.stats { display: grid; grid-template-columns: repeat(auto-fit, minmax(200px, 1fr)); gap: 16px; margin-bottom: 24px; }
.stat { background: #fff; border-radius: 8px; padding: 20px; box-shadow: 0 1px 3px rgba(0,0,0,0.1); }
.stat .label { font-size: 12px; color: #888; text-transform: uppercase; letter-spacing: 1px; }
.stat .value { font-size: 28px; font-weight: 700; color: #1a1a2e; margin-top: 4px; }
table { width: 100%; border-collapse: collapse; }
th { text-align: left; padding: 10px 12px; border-bottom: 2px solid #eee; font-size: 12px; text-transform: uppercase; color: #888; letter-spacing: 0.5px; }
td { padding: 10px 12px; border-bottom: 1px solid #eee; font-size: 14px; }
tr:hover td { background: #f8f9fa; }
a.link { color: #e94560; text-decoration: none; }
a.link:hover { text-decoration: underline; }
.btn { display: inline-block; padding: 8px 16px; border-radius: 4px; border: none; cursor: pointer; font-size: 14px; text-decoration: none; }
.btn-primary { background: #e94560; color: #fff; }
.btn-primary:hover { background: #c73e54; }
.btn-danger { background: #dc3545; color: #fff; }
.btn-danger:hover { background: #bd2130; }
.btn-sm { padding: 4px 10px; font-size: 12px; }
input[type="text"], input[type="password"], input[type="file"] { padding: 8px 12px; border: 1px solid #ddd; border-radius: 4px; font-size: 14px; width: 100%; max-width: 400px; }
input[type="text"]:focus, input[type="password"]:focus { outline: none; border-color: #e94560; }
.form-group { margin-bottom: 16px; }
.form-group label { display: block; margin-bottom: 4px; font-size: 14px; font-weight: 500; }
.breadcrumb { margin-bottom: 20px; font-size: 14px; color: #888; }
.breadcrumb a { color: #e94560; text-decoration: none; }
.empty { text-align: center; padding: 40px; color: #888; }
.flash { padding: 12px 16px; border-radius: 4px; margin-bottom: 16px; }
.flash-success { background: #d4edda; color: #155724; }
.flash-error { background: #f8d7da; color: #721c24; }
.inline-form { display: inline; }
</style>
</head>
<body>
<div class="layout">
<nav class="sidebar">
<h1><span>Mini</span>Minio</h1>
<a href="/ui">Dashboard</a>
<a href="/ui/buckets">Buckets</a>
<a href="/ui/admin">Admin</a>
</nav>
<div class="main">
"##);
    push_str(&mut s, content);
    push_str(&mut s, r##"
</div>
</div>
</body>
</html>"##);
    s
}

/// The login page.
pub open spec fn login_html() -> Seq<char> {
    r##"<!DOCTYPE html>
<html><head>
<meta charset="UTF-8"><meta name="viewport" content="width=device-width, initial-scale=1.0">
<title>Login — MiniMinio</title>
<style>
* { margin: 0; padding: 0; box-sizing: border-box; }
body { font-family: -apple-system, BlinkMacSystemFont, 'Segoe UI', Roboto, sans-serif; background: #1a1a2e; display: flex; justify-content: center; align-items: center; min-height: 100vh; }
.login-box { background: #fff; padding: 40px; border-radius: 8px; width: 360px; box-shadow: 0 4px 20px rgba(0,0,0,0.3); }
.login-box h1 { text-align: center; margin-bottom: 24px; color: #1a1a2e; }
.login-box h1 span { color: #e94560; }
.form-group { margin-bottom: 16px; }
.form-group label { display: block; margin-bottom: 4px; font-size: 14px; }
.form-group input { width: 100%; padding: 10px; border: 1px solid #ddd; border-radius: 4px; font-size: 14px; }
.btn { width: 100%; padding: 12px; background: #e94560; color: #fff; border: none; border-radius: 4px; font-size: 16px; cursor: pointer; }
.btn:hover { background: #c73e54; }
</style>
</head><body>
<div class="login-box">
<h1><span>Mini</span>Minio</h1>
<form method="post" action="/ui/login">
<div class="form-group"><label>Access Key</label><input type="text" name="access_key" required></div>
<div class="form-group"><label>Secret Key</label><input type="password" name="secret_key" required></div>
<button type="submit" class="btn">Login</button>
</form>
</div>
</body></html>"##@
}

/// The login page.
pub fn login_page() -> (r: String)
    ensures
        r@ == login_html(),
{
    copy_str(r##"<!DOCTYPE html>
<html><head>
<meta charset="UTF-8"><meta name="viewport" content="width=device-width, initial-scale=1.0">
<title>Login — MiniMinio</title>
<style>
* { margin: 0; padding: 0; box-sizing: border-box; }
body { font-family: -apple-system, BlinkMacSystemFont, 'Segoe UI', Roboto, sans-serif; background: #1a1a2e; display: flex; justify-content: center; align-items: center; min-height: 100vh; }
.login-box { background: #fff; padding: 40px; border-radius: 8px; width: 360px; box-shadow: 0 4px 20px rgba(0,0,0,0.3); }
.login-box h1 { text-align: center; margin-bottom: 24px; color: #1a1a2e; }
.login-box h1 span { color: #e94560; }
.form-group { margin-bottom: 16px; }
.form-group label { display: block; margin-bottom: 4px; font-size: 14px; }
.form-group input { width: 100%; padding: 10px; border: 1px solid #ddd; border-radius: 4px; font-size: 14px; }
.btn { width: 100%; padding: 12px; background: #e94560; color: #fff; border: none; border-radius: 4px; font-size: 16px; cursor: pointer; }
.btn:hover { background: #c73e54; }
</style>
</head><body>
<div class="login-box">
<h1><span>Mini</span>Minio</h1>
<form method="post" action="/ui/login">
<div class="form-group"><label>Access Key</label><input type="text" name="access_key" required></div>
<div class="form-group"><label>Secret Key</label><input type="password" name="secret_key" required></div>
<button type="submit" class="btn">Login</button>
</form>
</div>
</body></html>"##)
}

/// A form field, or empty when the form lacks it.
pub open spec fn field_or_empty(f: Option<Seq<char>>) -> Seq<char> {
    match f {
        Some(v) => v,
        None => Seq::empty(),
    }
}

/// Whether a login form names the configured access key and secret key.
pub fn login_accepted(form_access_key: Option<&str>, form_secret_key: Option<&str>, access_key: &str, secret_key: &str) -> (r: bool)
    ensures
        r == (field_or_empty(crate::auth::opt_view(form_access_key)) == access_key@
            && field_or_empty(crate::auth::opt_view(form_secret_key)) == secret_key@),
{
    let ak: &str = match form_access_key {
        Some(v) => v,
        None => "",
    };
    let sk: &str = match form_secret_key {
        Some(v) => v,
        None => "",
    };
    proof {
        reveal_strlit("");
    }
    assert(ak@ == field_or_empty(crate::auth::opt_view(form_access_key)));
    assert(sk@ == field_or_empty(crate::auth::opt_view(form_secret_key)));
    str_eq(ak, access_key) && str_eq(sk, secret_key)
}

/// A notice above the content: green for `msg`, red for `error`; nothing
/// when absent.
pub open spec fn spec_flash(m: Option<Seq<char>>, success: bool) -> Seq<char> {
    match m {
        None => Seq::empty(),
        Some(m) => if success {
            r##"<div class="flash flash-success">"##@ + m + r##"</div>"##@
        } else {
            r##"<div class="flash flash-error">"##@ + m + r##"</div>"##@
        },
    }
}

/// A notice above the content.
pub fn flash_html(m: Option<&str>, success: bool) -> (r: String)
    ensures
        r@ == spec_flash(crate::auth::opt_view(m), success),
{
    let mut s = String::new();
    match m {
        None => {},
        Some(m) => {
            if success {
                push_str(&mut s, r##"<div class="flash flash-success">"##);
                push_str(&mut s, m);
                push_str(&mut s, r##"</div>"##);
            } else {
                push_str(&mut s, r##"<div class="flash flash-error">"##);
                push_str(&mut s, m);
                push_str(&mut s, r##"</div>"##);
            }
        },
    }
    s
}

// ---------------------------------------------------------------------------
// Dashboard

/// A row of the dashboard's bucket table.
pub open spec fn dashboard_row(b: BucketInfo, st: BucketStats) -> Seq<char> {
    r##"<tr><td><a href="/ui/buckets/"##@ + b.name@ + r##"" class="link">"##@ + b.name@ + r##"</a></td><td>"##@ + byte_prefix(b.created@, 10) + r##"</td><td>"##@ + dec_digits(st.object_count as nat) + r##"</td><td>"##@ + spec_format_bytes(st.total_size) + r##"</td></tr>"##@
}

pub open spec fn dashboard_rows(bs: Seq<BucketInfo>, sts: Seq<BucketStats>, n: nat) -> Seq<char>
    decreases n,
{
    if n == 0 {
        Seq::empty()
    } else {
        dashboard_rows(bs, sts, (n - 1) as nat) + dashboard_row(bs[n - 1], sts[n - 1])
    }
}

/// The buckets the dashboard shows: the first ten.
pub open spec fn dashboard_count(n: nat) -> nat {
    if n < 10 {
        n
    } else {
        10
    }
}

pub open spec fn dashboard_table(bs: Seq<BucketInfo>, sts: Seq<BucketStats>) -> Seq<char> {
    if bs.len() == 0 {
        r##"<div class="empty">No buckets yet. <a href="/ui/buckets" class="link">Create one</a></div>"##@
    } else {
        r##"<table><tr><th>Name</th><th>Created</th><th>Objects</th><th>Size</th></tr>"##@
            + dashboard_rows(bs, sts, dashboard_count(bs.len())) + r##"</table>"##@
    }
}

/// The dashboard.
pub open spec fn spec_dashboard(
    bucket_count: nat,
    total: BucketStats,
    snap: MetricsSnapshot,
    table: Seq<char>,
) -> Seq<char> {
    spec_page("Dashboard"@, r##"<h2>Dashboard</h2>
<div class="stats">
<div class="stat"><div class="label">Buckets</div><div class="value">"##@ + dec_digits(bucket_count as nat) + r##"</div></div>
<div class="stat"><div class="label">Objects</div><div class="value">"##@ + dec_digits(total.object_count as nat) + r##"</div></div>
<div class="stat"><div class="label">Storage Used</div><div class="value">"##@ + spec_format_bytes(total.total_size) + r##"</div></div>
<div class="stat"><div class="label">Requests</div><div class="value">"##@ + dec_digits(snap.requests_total as nat) + r##"</div></div>
</div>
<div class="stats">
<div class="stat"><div class="label">Data In</div><div class="value">"##@ + spec_format_bytes(snap.bytes_in) + r##"</div></div>
<div class="stat"><div class="label">Data Out</div><div class="value">"##@ + spec_format_bytes(snap.bytes_out) + r##"</div></div>
<div class="stat"><div class="label">Uptime</div><div class="value">"##@ + spec_format_uptime(snap.uptime_secs) + r##"</div></div>
<div class="stat"><div class="label">Errors</div><div class="value">"##@ + dec_digits(snap.errors_total as nat) + r##"</div></div>
</div>
<div class="card">
<h3>Recent Buckets</h3>
"##@ + table + r##"
</div>"##@)
}

fn write_dashboard_row(s: &mut String, b: &BucketInfo, st: &BucketStats)
    requires
        is_char_boundary(encode_utf8(b.created@), 10),
    ensures
        final(s)@ == old(s)@ + dashboard_row(*b, *st),
{
    let created = str_byte_prefix(b.created.as_str(), 10);
    let size = format_bytes(st.total_size);
    push_str(s, r##"<tr><td><a href="/ui/buckets/"##);
    push_str(s, b.name.as_str());
    push_str(s, r##"" class="link">"##);
    push_str(s, b.name.as_str());
    push_str(s, r##"</a></td><td>"##);
    push_str(s, created.as_str());
    push_str(s, r##"</td><td>"##);
    push_decimal(s, st.object_count);
    push_str(s, r##"</td><td>"##);
    push_str(s, size.as_str());
    push_str(s, r##"</td></tr>"##);
}

/// The dashboard, showing the first ten buckets with their statistics
/// (`stats[i]` belongs to `buckets[i]`).
pub fn dashboard(
    total: &BucketStats,
    snap: &MetricsSnapshot,
    buckets: &Vec<BucketInfo>,
    stats: &Vec<BucketStats>,
) -> (r: String)
    requires
        stats.len() >= dashboard_count(buckets.len() as nat),
        forall|i: int|
            0 <= i < dashboard_count(buckets.len() as nat) ==> is_char_boundary(
                encode_utf8(#[trigger] buckets@[i].created@),
                10,
            ),
    ensures
        r@ == spec_dashboard(buckets.len() as nat, *total, *snap, dashboard_table(buckets@, stats@)),
{
    let mut table = String::new();
    if buckets.len() == 0 {
        push_str(&mut table, r##"<div class="empty">No buckets yet. <a href="/ui/buckets" class="link">Create one</a></div>"##);
    } else {
        push_str(&mut table, r##"<table><tr><th>Name</th><th>Created</th><th>Objects</th><th>Size</th></tr>"##);
        let n: usize = if buckets.len() < 10 { buckets.len() } else { 10 };
        let ghost head = table@;
        let mut i: usize = 0;
        while i < n
            invariant
                i <= n,
                n == dashboard_count(buckets.len() as nat),
                n <= stats.len(),
                n <= buckets.len(),
                forall|k: int| 0 <= k < n ==> is_char_boundary(encode_utf8(#[trigger] buckets@[k].created@), 10),
                table@ == head + dashboard_rows(buckets@, stats@, i as nat),
            decreases n - i,
        {
            write_dashboard_row(&mut table, &buckets[i], &stats[i]);
            i = i + 1;
        }
        push_str(&mut table, r##"</table>"##);
    }
    let bucket_count = buckets.len();
    let total_size = format_bytes(total.total_size);
    let bytes_in = format_bytes(snap.bytes_in);
    let bytes_out = format_bytes(snap.bytes_out);
    let uptime = format_uptime(snap.uptime_secs);
    let mut s = String::new();
    push_str(&mut s, r##"<h2>Dashboard</h2>
<div class="stats">
<div class="stat"><div class="label">Buckets</div><div class="value">"##);
    push_decimal(&mut s, bucket_count as u64);
    push_str(&mut s, r##"</div></div>
<div class="stat"><div class="label">Objects</div><div class="value">"##);
    push_decimal(&mut s, total.object_count);
    push_str(&mut s, r##"</div></div>
<div class="stat"><div class="label">Storage Used</div><div class="value">"##);
    push_str(&mut s, total_size.as_str());
    push_str(&mut s, r##"</div></div>
<div class="stat"><div class="label">Requests</div><div class="value">"##);
    push_decimal(&mut s, snap.requests_total);
    push_str(&mut s, r##"</div></div>
</div>
<div class="stats">
<div class="stat"><div class="label">Data In</div><div class="value">"##);
    push_str(&mut s, bytes_in.as_str());
    push_str(&mut s, r##"</div></div>
<div class="stat"><div class="label">Data Out</div><div class="value">"##);
    push_str(&mut s, bytes_out.as_str());
    push_str(&mut s, r##"</div></div>
<div class="stat"><div class="label">Uptime</div><div class="value">"##);
    push_str(&mut s, uptime.as_str());
    push_str(&mut s, r##"</div></div>
<div class="stat"><div class="label">Errors</div><div class="value">"##);
    push_decimal(&mut s, snap.errors_total);
    push_str(&mut s, r##"</div></div>
</div>
<div class="card">
<h3>Recent Buckets</h3>
"##);
    push_str(&mut s, table.as_str());
    push_str(&mut s, r##"
</div>"##);
    page("Dashboard", s.as_str())
}

// ---------------------------------------------------------------------------
// Buckets page

/// Where the creation date of a bucket is cut: after ten bytes, or at its
/// end.
pub open spec fn created_cut(created: Seq<char>) -> nat {
    if encode_utf8(created).len() < 10 {
        encode_utf8(created).len()
    } else {
        10
    }
}

/// A row of the bucket table.
pub open spec fn bucket_row(b: BucketInfo, st: BucketStats) -> Seq<char> {
    r##"<tr>
<td><a href="/ui/buckets/"##@ + b.name@ + r##"" class="link">"##@ + b.name@ + r##"</a></td>
<td>"##@ + byte_prefix(b.created@, created_cut(b.created@)) + r##"</td>
<td>"##@ + dec_digits(st.object_count as nat) + r##"</td>
<td>"##@ + spec_format_bytes(st.total_size) + r##"</td>
<td>
<form class="inline-form" method="post" action="/ui/buckets/"##@ + b.name@ + r##"/delete" onsubmit="return confirm('Delete bucket "##@ + b.name@ + r##"?')">
<button type="submit" class="btn btn-danger btn-sm">Delete</button>
</form>
</td>
</tr>"##@
}

pub open spec fn bucket_rows(bs: Seq<BucketInfo>, sts: Seq<BucketStats>, n: nat) -> Seq<char>
    decreases n,
{
    if n == 0 {
        Seq::empty()
    } else {
        bucket_rows(bs, sts, (n - 1) as nat) + bucket_row(bs[n - 1], sts[n - 1])
    }
}

pub open spec fn buckets_table(bs: Seq<BucketInfo>, sts: Seq<BucketStats>) -> Seq<char> {
    if bs.len() == 0 {
        r##"<div class="empty">No buckets yet</div>"##@
    } else {
        r##"<table><tr><th>Name</th><th>Created</th><th>Objects</th><th>Size</th><th>Actions</th></tr>"##@ + bucket_rows(bs, sts, bs.len()) + r##"</table>"##@
    }
}

/// The buckets page.
pub open spec fn spec_buckets_page(flash: Seq<char>, error: Seq<char>, count: nat, table: Seq<char>) -> Seq<char> {
    spec_page("Buckets"@, r##"<h2>Buckets</h2>
"##@ + flash + error + r##"
<div class="card">
<h3>Create Bucket</h3>
<form method="post" action="/ui/buckets/new/create" style="display:flex;gap:8px;align-items:end">
<div class="form-group" style="margin:0"><label>Bucket Name</label><input type="text" name="name" required pattern="[a-z0-9][a-z0-9.\-]{2,62}" title="3-63 chars, lowercase alphanumeric, hyphens, periods"></div>
<button type="submit" class="btn btn-primary">Create</button>
</form>
</div>
<div class="card">
<h3>All Buckets ("##@ + dec_digits(count as nat) + r##")</h3>
"##@ + table + r##"
</div>"##@)
}

#[verifier::rlimit(40)]
fn write_bucket_row(s: &mut String, b: &BucketInfo, st: &BucketStats)
    requires
        is_char_boundary(encode_utf8(b.created@), created_cut(b.created@) as int),
    ensures
        final(s)@ == old(s)@ + bucket_row(*b, *st),
{
    let len = b.created.as_str().as_bytes().len();
    let cut: usize = if len < 10 { len } else { 10 };
    assert(cut == created_cut(b.created@));
    let created = str_byte_prefix(b.created.as_str(), cut);
    let size = format_bytes(st.total_size);
    push_str(s, r##"<tr>
<td><a href="/ui/buckets/"##);
    push_str(s, b.name.as_str());
    push_str(s, r##"" class="link">"##);
    push_str(s, b.name.as_str());
    push_str(s, r##"</a></td>
<td>"##);
    push_str(s, created.as_str());
    push_str(s, r##"</td>
<td>"##);
    push_decimal(s, st.object_count);
    push_str(s, r##"</td>
<td>"##);
    push_str(s, size.as_str());
    push_str(s, r##"</td>
<td>
<form class="inline-form" method="post" action="/ui/buckets/"##);
    push_str(s, b.name.as_str());
    push_str(s, r##"/delete" onsubmit="return confirm('Delete bucket "##);
    push_str(s, b.name.as_str());
    push_str(s, r##"?')">
<button type="submit" class="btn btn-danger btn-sm">Delete</button>
</form>
</td>
</tr>"##);
    assert(s@ =~= old(s)@ + bucket_row(*b, *st));
}

/// The buckets page, with every bucket and its statistics (`stats[i]`
/// belongs to `buckets[i]`) and the notices of the last action.
pub fn buckets_page(
    buckets: &Vec<BucketInfo>,
    stats: &Vec<BucketStats>,
    msg: Option<&str>,
    error: Option<&str>,
) -> (r: String)
    requires
        stats.len() >= buckets.len(),
        forall|i: int|
            0 <= i < buckets.len() ==> is_char_boundary(
                encode_utf8(#[trigger] buckets@[i].created@),
                created_cut(buckets@[i].created@) as int,
            ),
    ensures
        r@ == spec_buckets_page(
            spec_flash(crate::auth::opt_view(msg), true),
            spec_flash(crate::auth::opt_view(error), false),
            buckets.len() as nat,
            buckets_table(buckets@, stats@),
        ),
{
    let flash = flash_html(msg, true);
    let error = flash_html(error, false);
    let mut table = String::new();
    if buckets.len() == 0 {
        push_str(&mut table, r##"<div class="empty">No buckets yet</div>"##);
    } else {
        push_str(&mut table, r##"<table><tr><th>Name</th><th>Created</th><th>Objects</th><th>Size</th><th>Actions</th></tr>"##);
        let ghost head = table@;
        let mut i: usize = 0;
        while i < buckets.len()
            invariant
                i <= buckets.len() <= stats.len(),
                forall|k: int|
                    0 <= k < buckets.len() ==> is_char_boundary(
                        encode_utf8(#[trigger] buckets@[k].created@),
                        created_cut(buckets@[k].created@) as int,
                    ),
                table@ == head + bucket_rows(buckets@, stats@, i as nat),
            decreases buckets.len() - i,
        {
            write_bucket_row(&mut table, &buckets[i], &stats[i]);
            i = i + 1;
        }
        push_str(&mut table, r##"</table>"##);
    }
    let count = buckets.len();
    let mut s = String::new();
    push_str(&mut s, r##"<h2>Buckets</h2>
"##);
    push_str(&mut s, flash.as_str());
    push_str(&mut s, error.as_str());
    push_str(&mut s, r##"
<div class="card">
<h3>Create Bucket</h3>
<form method="post" action="/ui/buckets/new/create" style="display:flex;gap:8px;align-items:end">
<div class="form-group" style="margin:0"><label>Bucket Name</label><input type="text" name="name" required pattern="[a-z0-9][a-z0-9.\-]{2,62}" title="3-63 chars, lowercase alphanumeric, hyphens, periods"></div>
<button type="submit" class="btn btn-primary">Create</button>
</form>
</div>
<div class="card">
<h3>All Buckets ("##);
    push_decimal(&mut s, count as u64);
    push_str(&mut s, r##")</h3>
"##);
    push_str(&mut s, table.as_str());
    push_str(&mut s, r##"
</div>"##);
    page("Buckets", s.as_str())
}

// ---------------------------------------------------------------------------
// Objects page

/// The folder above a listing prefix: the prefix up to and including the
/// last `/` before its final character, or nothing.
pub open spec fn spec_parent_prefix(prefix: Seq<char>) -> Seq<char> {
    match last_index_of(prefix.drop_last(), '/') {
        Some(j) => prefix.take(j + 1),
        None => Seq::empty(),
    }
}

/// The folder above a listing prefix. The prefix's last character is
/// ASCII, so that the text before it ends at a character boundary.
pub fn parent_prefix(prefix: &str) -> (r: String)
    requires
        prefix@.len() > 0,
        (prefix@.last() as u32) < 128,
    ensures
        r@ == spec_parent_prefix(prefix@),
{
    let p = chars_of(prefix);
    match last_index_exec(&p, p.len() - 1, '/') {
        Some(j) => {
            assert(p@.take(p.len() - 1) =~= prefix@.drop_last());
            let h = slice_chars(&p, 0, j + 1);
            assert(h@ =~= prefix@.take(j + 1));
            string_from_chars(&h)
        },
        None => {
            assert(p@.take(p.len() - 1) =~= prefix@.drop_last());
            String::new()
        },
    }
}

/// The row leading to the folder above.
pub open spec fn parent_row(bucket: Seq<char>, parent: Seq<char>) -> Seq<char> {
    r##"<tr><td><a href="/ui/buckets/"##@ + bucket + r##"?prefix="##@ + parent + r##"" class="link">..</a></td><td>—</td><td>—</td><td></td></tr>"##@
}

/// The row of a folder (common prefix).
pub open spec fn folder_row(bucket: Seq<char>, prefix: Seq<char>, cp: Seq<char>) -> Seq<char> {
    r##"<tr><td><a href="/ui/buckets/"##@ + bucket + r##"?prefix="##@ + cp + r##"" class="link">"##@ + strip_or_keep(cp, prefix) + r##"</a></td><td>—</td><td>Folder</td><td></td></tr>"##@
}

/// Where the modification time of an object is cut: after 19 bytes, or at
/// its end.
pub open spec fn modified_cut(t: Seq<char>) -> nat {
    if encode_utf8(t).len() < 19 {
        encode_utf8(t).len()
    } else {
        19
    }
}

/// The row of an object.
pub open spec fn object_row(bucket: Seq<char>, prefix: Seq<char>, o: ObjectMetadata) -> Seq<char> {
    r##"<tr>
<td><a href="/"##@ + bucket + r##"/"##@ + o.key@ + r##"" class="link" target="_blank">"##@ + strip_or_keep(o.key@, prefix) + r##"</a></td>
<td>"##@ + spec_format_bytes(o.size) + r##"</td>
<td>"##@ + byte_prefix(o.last_modified@, modified_cut(o.last_modified@)) + r##"</td>
<td>
<form class="inline-form" method="post" action="/ui/buckets/"##@ + bucket + r##"/delete-object" onsubmit="return confirm('Delete "##@ + strip_or_keep(o.key@, prefix) + r##"?')">
<input type="hidden" name="key" value=""##@ + o.key@ + r##"">
<button type="submit" class="btn btn-danger btn-sm">Delete</button>
</form>
</td>
</tr>"##@
}

pub open spec fn folder_rows(bucket: Seq<char>, prefix: Seq<char>, cps: Seq<Seq<char>>) -> Seq<char>
    decreases cps.len(),
{
    if cps.len() == 0 {
        Seq::empty()
    } else {
        folder_rows(bucket, prefix, cps.drop_last()) + folder_row(bucket, prefix, cps.last())
    }
}

pub open spec fn object_rows(bucket: Seq<char>, prefix: Seq<char>, os: Seq<ObjectMetadata>) -> Seq<char>
    decreases os.len(),
{
    if os.len() == 0 {
        Seq::empty()
    } else {
        object_rows(bucket, prefix, os.drop_last()) + object_row(bucket, prefix, os.last())
    }
}

/// All rows of the object table: the way up (below the top), folders, then
/// objects.
pub open spec fn listing_rows(bucket: Seq<char>, prefix: Seq<char>, r: ListObjectsResult) -> Seq<char> {
    (if prefix.len() > 0 {
        parent_row(bucket, spec_parent_prefix(prefix))
    } else {
        Seq::empty()
    }) + folder_rows(bucket, prefix, sviews(r.common_prefixes@)) + object_rows(bucket, prefix, r.objects@)
}

pub open spec fn objects_table(rows: Seq<char>) -> Seq<char> {
    if rows.len() == 0 {
        r##"<div class="empty">No objects in this location</div>"##@
    } else {
        r##"<table><tr><th>Name</th><th>Size</th><th>Modified</th><th>Actions</th></tr>"##@ + rows
            + r##"</table>"##@
    }
}

/// The page of a bucket's objects under a prefix.
pub open spec fn spec_objects_page(bucket: Seq<char>, prefix: Seq<char>, flash: Seq<char>, table: Seq<char>) -> Seq<char> {
    spec_page(bucket, r##"<div class="breadcrumb">"##@ + spec_breadcrumb(bucket, prefix) + r##"</div>
"##@ + flash + r##"
<div class="card" style="display:flex;gap:8px;align-items:center">
<a href="/ui/buckets/"##@ + bucket + r##"/upload?prefix="##@ + prefix + r##"" class="btn btn-primary">Upload File</a>
</div>
<div class="card">
<h3>Objects</h3>
"##@ + table + r##"
</div>"##@)
}

fn write_folder_row(s: &mut String, bucket: &str, prefix: &str, cp: &str)
    ensures
        final(s)@ == old(s)@ + folder_row(bucket@, prefix@, cp@),
{
    let display = strip_or_keep_exec(cp, prefix);
    push_str(s, r##"<tr><td><a href="/ui/buckets/"##);
    push_str(s, bucket);
    push_str(s, r##"?prefix="##);
    push_str(s, cp);
    push_str(s, r##"" class="link">"##);
    push_str(s, display.as_str());
    push_str(s, r##"</a></td><td>—</td><td>Folder</td><td></td></tr>"##);
}

#[verifier::rlimit(40)]
fn write_object_row(s: &mut String, bucket: &str, prefix: &str, o: &ObjectMetadata)
    requires
        is_char_boundary(encode_utf8(o.last_modified@), modified_cut(o.last_modified@) as int),
    ensures
        final(s)@ == old(s)@ + object_row(bucket@, prefix@, *o),
{
    let display = strip_or_keep_exec(o.key.as_str(), prefix);
    let size = format_bytes(o.size);
    let len = o.last_modified.as_str().as_bytes().len();
    let cut: usize = if len < 19 { len } else { 19 };
    assert(cut == modified_cut(o.last_modified@));
    let modified = str_byte_prefix(o.last_modified.as_str(), cut);
    push_str(s, r##"<tr>
<td><a href="/"##);
    push_str(s, bucket);
    push_str(s, r##"/"##);
    push_str(s, o.key.as_str());
    push_str(s, r##"" class="link" target="_blank">"##);
    push_str(s, display.as_str());
    push_str(s, r##"</a></td>
<td>"##);
    push_str(s, size.as_str());
    push_str(s, r##"</td>
<td>"##);
    push_str(s, modified.as_str());
    push_str(s, r##"</td>
<td>
<form class="inline-form" method="post" action="/ui/buckets/"##);
    push_str(s, bucket);
    push_str(s, r##"/delete-object" onsubmit="return confirm('Delete "##);
    push_str(s, display.as_str());
    push_str(s, r##"?')">
<input type="hidden" name="key" value=""##);
    push_str(s, o.key.as_str());
    push_str(s, r##"">
<button type="submit" class="btn btn-danger btn-sm">Delete</button>
</form>
</td>
</tr>"##);
    assert(s@ =~= old(s)@ + object_row(bucket@, prefix@, *o));
}

/// The page of a bucket's objects under `prefix`, from a listing with `/`
/// as delimiter. A non-empty prefix ends with an ASCII character (the
/// folder above is found by cutting its last byte).
pub fn objects_page(bucket: &str, prefix: &str, msg: Option<&str>, result: &ListObjectsResult) -> (r: String)
    requires
        prefix@.len() > 0 ==> (prefix@.last() as u32) < 128,
        forall|i: int|
            0 <= i < result.objects@.len() ==> is_char_boundary(
                encode_utf8(#[trigger] result.objects@[i].last_modified@),
                modified_cut(result.objects@[i].last_modified@) as int,
            ),
    ensures
        r@ == spec_objects_page(
            bucket@,
            prefix@,
            spec_flash(crate::auth::opt_view(msg), true),
            objects_table(listing_rows(bucket@, prefix@, *result)),
        ),
{
    let flash = flash_html(msg, true);
    let mut rows = String::new();
    if chars_of(prefix).len() > 0 {
        let parent = parent_prefix(prefix);
        let mut s = String::new();
        push_str(&mut s, r##"<tr><td><a href="/ui/buckets/"##);
        push_str(&mut s, bucket);
        push_str(&mut s, r##"?prefix="##);
        push_str(&mut s, parent.as_str());
        push_str(&mut s, r##"" class="link">..</a></td><td>—</td><td>—</td><td></td></tr>"##);
        push_str(&mut rows, s.as_str());
    }
    let ghost a = rows@;
    let ghost cps = sviews(result.common_prefixes@);
    let mut i: usize = 0;
    while i < result.common_prefixes.len()
        invariant
            i <= result.common_prefixes.len(),
            cps == sviews(result.common_prefixes@),
            rows@ == a + folder_rows(bucket@, prefix@, cps.take(i as int)),
        decreases result.common_prefixes.len() - i,
    {
        assert(cps.take(i + 1).drop_last() =~= cps.take(i as int));
        write_folder_row(&mut rows, bucket, prefix, result.common_prefixes[i].as_str());
        i = i + 1;
    }
    assert(cps.take(result.common_prefixes.len() as int) =~= cps);
    let ghost b = rows@;
    let mut j: usize = 0;
    while j < result.objects.len()
        invariant
            j <= result.objects.len(),
            forall|k: int|
                0 <= k < result.objects@.len() ==> is_char_boundary(
                    encode_utf8(#[trigger] result.objects@[k].last_modified@),
                    modified_cut(result.objects@[k].last_modified@) as int,
                ),
            rows@ == b + object_rows(bucket@, prefix@, result.objects@.take(j as int)),
        decreases result.objects.len() - j,
    {
        assert(result.objects@.take(j + 1).drop_last() =~= result.objects@.take(j as int));
        write_object_row(&mut rows, bucket, prefix, &result.objects[j]);
        j = j + 1;
    }
    assert(result.objects@.take(result.objects.len() as int) =~= result.objects@);
    let mut table = String::new();
    if chars_of(rows.as_str()).len() == 0 {
        push_str(&mut table, r##"<div class="empty">No objects in this location</div>"##);
    } else {
        push_str(&mut table, r##"<table><tr><th>Name</th><th>Size</th><th>Modified</th><th>Actions</th></tr>"##);
        push_str(&mut table, rows.as_str());
        push_str(&mut table, r##"</table>"##);
    }
    let crumbs = build_breadcrumb(bucket, prefix);
    let mut s = String::new();
    push_str(&mut s, r##"<div class="breadcrumb">"##);
    push_str(&mut s, crumbs.as_str());
    push_str(&mut s, r##"</div>
"##);
    push_str(&mut s, flash.as_str());
    push_str(&mut s, r##"
<div class="card" style="display:flex;gap:8px;align-items:center">
<a href="/ui/buckets/"##);
    push_str(&mut s, bucket);
    push_str(&mut s, r##"/upload?prefix="##);
    push_str(&mut s, prefix);
    push_str(&mut s, r##"" class="btn btn-primary">Upload File</a>
</div>
<div class="card">
<h3>Objects</h3>
"##);
    push_str(&mut s, table.as_str());
    push_str(&mut s, r##"
</div>"##);
    page(bucket, s.as_str())
}

// ---------------------------------------------------------------------------
// Upload page

/// The upload form for a bucket and prefix.
pub open spec fn spec_upload_page(bucket: Seq<char>, prefix: Seq<char>) -> Seq<char> {
    spec_page("Upload"@, r##"<div class="breadcrumb"><a href="/ui/buckets">Buckets</a> / <a href="/ui/buckets/"##@ + bucket + r##"">"##@ + bucket + r##"</a> / Upload</div>
<div class="card">
<h3>Upload File</h3>
<form method="post" action="/ui/buckets/"##@ + bucket + r##"/upload?prefix="##@ + prefix + r##"" enctype="multipart/form-data">
<div class="form-group"><label>Key prefix</label><input type="text" name="prefix" value=""##@ + prefix + r##"" placeholder="e.g. photos/2024/"></div>
<div class="form-group"><label>File</label><input type="file" name="file" required></div>
<button type="submit" class="btn btn-primary">Upload</button>
</form>
</div>"##@)
}

/// The upload form for a bucket and prefix.
pub fn upload_page(bucket: &str, prefix: &str) -> (r: String)
    ensures
        r@ == spec_upload_page(bucket@, prefix@),
{
    let mut s = String::new();
    push_str(&mut s, r##"<div class="breadcrumb"><a href="/ui/buckets">Buckets</a> / <a href="/ui/buckets/"##);
    push_str(&mut s, bucket);
    push_str(&mut s, r##"">"##);
    push_str(&mut s, bucket);
    push_str(&mut s, r##"</a> / Upload</div>
<div class="card">
<h3>Upload File</h3>
<form method="post" action="/ui/buckets/"##);
    push_str(&mut s, bucket);
    push_str(&mut s, r##"/upload?prefix="##);
    push_str(&mut s, prefix);
    push_str(&mut s, r##"" enctype="multipart/form-data">
<div class="form-group"><label>Key prefix</label><input type="text" name="prefix" value=""##);
    push_str(&mut s, prefix);
    push_str(&mut s, r##"" placeholder="e.g. photos/2024/"></div>
<div class="form-group"><label>File</label><input type="file" name="file" required></div>
<button type="submit" class="btn btn-primary">Upload</button>
</form>
</div>"##);
    page("Upload", s.as_str())
}

// ---------------------------------------------------------------------------
// Admin page

pub open spec fn metric_requests(m: Option<BucketMetrics>) -> u64 {
    match m {
        Some(m) => m.requests,
        None => 0,
    }
}

pub open spec fn metric_in(m: Option<BucketMetrics>) -> u64 {
    match m {
        Some(m) => m.bytes_in,
        None => 0,
    }
}

pub open spec fn metric_out(m: Option<BucketMetrics>) -> u64 {
    match m {
        Some(m) => m.bytes_out,
        None => 0,
    }
}

/// A row of the per-bucket table of the admin page.
pub open spec fn admin_row(b: BucketInfo, st: BucketStats, m: Option<BucketMetrics>) -> Seq<char> {
    r##"<tr><td>"##@ + b.name@ + r##"</td><td>"##@ + dec_digits(st.object_count as nat) + r##"</td><td>"##@ + spec_format_bytes(st.total_size) + r##"</td><td>"##@ + dec_digits(metric_requests(m) as nat) + r##"</td><td>"##@ + spec_format_bytes(metric_in(m)) + r##"</td><td>"##@ + spec_format_bytes(metric_out(m)) + r##"</td></tr>"##@
}

pub open spec fn admin_rows(bs: Seq<BucketInfo>, sts: Seq<BucketStats>, ms: Seq<Option<BucketMetrics>>, n: nat) -> Seq<char>
    decreases n,
{
    if n == 0 {
        Seq::empty()
    } else {
        admin_rows(bs, sts, ms, (n - 1) as nat) + admin_row(bs[n - 1], sts[n - 1], ms[n - 1])
    }
}

pub open spec fn admin_table(bs: Seq<BucketInfo>, sts: Seq<BucketStats>, ms: Seq<Option<BucketMetrics>>) -> Seq<char> {
    if bs.len() == 0 {
        r##"<div class="empty">No buckets</div>"##@
    } else {
        r##"<table><tr><th>Bucket</th><th>Objects</th><th>Size</th><th>Requests</th><th>Data In</th><th>Data Out</th></tr>"##@
            + admin_rows(bs, sts, ms, bs.len()) + r##"</table>"##@
    }
}

/// The admin page.
pub open spec fn spec_admin_page(
    version: Seq<char>,
    snap: MetricsSnapshot,
    total: BucketStats,
    table: Seq<char>,
) -> Seq<char> {
    spec_page("Admin"@, r##"<h2>Administration</h2>
<div class="stats">
<div class="stat"><div class="label">Version</div><div class="value">v"##@ + version + r##"</div></div>
<div class="stat"><div class="label">Uptime</div><div class="value">"##@ + spec_format_uptime(snap.uptime_secs) + r##"</div></div>
<div class="stat"><div class="label">Total Storage</div><div class="value">"##@ + spec_format_bytes(total.total_size) + r##"</div></div>
<div class="stat"><div class="label">Total Objects</div><div class="value">"##@ + dec_digits(total.object_count as nat) + r##"</div></div>
</div>

<div class="card">
<h3>Request Statistics</h3>
<table>
<tr><th>Metric</th><th>Value</th></tr>
<tr><td>Total Requests</td><td>"##@ + dec_digits(snap.requests_total as nat) + r##"</td></tr>
<tr><td>GET Requests</td><td>"##@ + dec_digits(snap.requests_get as nat) + r##"</td></tr>
<tr><td>PUT Requests</td><td>"##@ + dec_digits(snap.requests_put as nat) + r##"</td></tr>
<tr><td>DELETE Requests</td><td>"##@ + dec_digits(snap.requests_delete as nat) + r##"</td></tr>
<tr><td>HEAD Requests</td><td>"##@ + dec_digits(snap.requests_head as nat) + r##"</td></tr>
<tr><td>Errors</td><td>"##@ + dec_digits(snap.errors_total as nat) + r##"</td></tr>
<tr><td>Data In</td><td>"##@ + spec_format_bytes(snap.bytes_in) + r##"</td></tr>
<tr><td>Data Out</td><td>"##@ + spec_format_bytes(snap.bytes_out) + r##"</td></tr>
</table>
</div>

<div class="card">
<h3>Per-Bucket Statistics</h3>
"##@ + table + r##"
</div>

<div class="card">
<h3>Maintenance</h3>
<p style="margin-bottom:12px">Clean up expired multipart uploads and orphaned metadata files.</p>
<form method="post" action="/ui/admin/cleanup">
<button type="submit" class="btn btn-primary">Run Cleanup</button>
</form>
</div>"##@)
}

fn write_admin_row(s: &mut String, b: &BucketInfo, st: &BucketStats, m: &Option<BucketMetrics>)
    ensures
        final(s)@ == old(s)@ + admin_row(*b, *st, *m),
{
    let size = format_bytes(st.total_size);
    let (requests, bytes_in, bytes_out) = match m {
        Some(m) => (m.requests, m.bytes_in, m.bytes_out),
        None => (0u64, 0u64, 0u64),
    };
    let bin = format_bytes(bytes_in);
    let bout = format_bytes(bytes_out);
    push_str(s, r##"<tr><td>"##);
    push_str(s, b.name.as_str());
    push_str(s, r##"</td><td>"##);
    push_decimal(s, st.object_count);
    push_str(s, r##"</td><td>"##);
    push_str(s, size.as_str());
    push_str(s, r##"</td><td>"##);
    push_decimal(s, requests);
    push_str(s, r##"</td><td>"##);
    push_str(s, bin.as_str());
    push_str(s, r##"</td><td>"##);
    push_str(s, bout.as_str());
    push_str(s, r##"</td></tr>"##);
}

/// The admin page: server counters, totals, and per bucket its statistics
/// and request counters (`stats[i]` and `metrics[i]` belong to
/// `buckets[i]`).
pub fn admin_page(
    version: &str,
    snap: &MetricsSnapshot,
    total: &BucketStats,
    buckets: &Vec<BucketInfo>,
    stats: &Vec<BucketStats>,
    metrics: &Vec<Option<BucketMetrics>>,
) -> (r: String)
    requires
        stats.len() >= buckets.len(),
        metrics.len() >= buckets.len(),
    ensures
        r@ == spec_admin_page(version@, *snap, *total, admin_table(buckets@, stats@, metrics@)),
{
    let mut table = String::new();
    if buckets.len() == 0 {
        push_str(&mut table, r##"<div class="empty">No buckets</div>"##);
    } else {
        push_str(&mut table, r##"<table><tr><th>Bucket</th><th>Objects</th><th>Size</th><th>Requests</th><th>Data In</th><th>Data Out</th></tr>"##);
        let ghost head = table@;
        let mut i: usize = 0;
        while i < buckets.len()
            invariant
                i <= buckets.len() <= stats.len(),
                buckets.len() <= metrics.len(),
                table@ == head + admin_rows(buckets@, stats@, metrics@, i as nat),
            decreases buckets.len() - i,
        {
            write_admin_row(&mut table, &buckets[i], &stats[i], &metrics[i]);
            i = i + 1;
        }
        push_str(&mut table, r##"</table>"##);
    }
    let uptime = format_uptime(snap.uptime_secs);
    let storage = format_bytes(total.total_size);
    let data_in = format_bytes(snap.bytes_in);
    let data_out = format_bytes(snap.bytes_out);
    let mut s = String::new();
    push_str(&mut s, r##"<h2>Administration</h2>
<div class="stats">
<div class="stat"><div class="label">Version</div><div class="value">v"##);
    push_str(&mut s, version);
    push_str(&mut s, r##"</div></div>
<div class="stat"><div class="label">Uptime</div><div class="value">"##);
    push_str(&mut s, uptime.as_str());
    push_str(&mut s, r##"</div></div>
<div class="stat"><div class="label">Total Storage</div><div class="value">"##);
    push_str(&mut s, storage.as_str());
    push_str(&mut s, r##"</div></div>
<div class="stat"><div class="label">Total Objects</div><div class="value">"##);
    push_decimal(&mut s, total.object_count);
    push_str(&mut s, r##"</div></div>
</div>

<div class="card">
<h3>Request Statistics</h3>
<table>
<tr><th>Metric</th><th>Value</th></tr>
<tr><td>Total Requests</td><td>"##);
    push_decimal(&mut s, snap.requests_total);
    push_str(&mut s, r##"</td></tr>
<tr><td>GET Requests</td><td>"##);
    push_decimal(&mut s, snap.requests_get);
    push_str(&mut s, r##"</td></tr>
<tr><td>PUT Requests</td><td>"##);
    push_decimal(&mut s, snap.requests_put);
    push_str(&mut s, r##"</td></tr>
<tr><td>DELETE Requests</td><td>"##);
    push_decimal(&mut s, snap.requests_delete);
    push_str(&mut s, r##"</td></tr>
<tr><td>HEAD Requests</td><td>"##);
    push_decimal(&mut s, snap.requests_head);
    push_str(&mut s, r##"</td></tr>
<tr><td>Errors</td><td>"##);
    push_decimal(&mut s, snap.errors_total);
    push_str(&mut s, r##"</td></tr>
<tr><td>Data In</td><td>"##);
    push_str(&mut s, data_in.as_str());
    push_str(&mut s, r##"</td></tr>
<tr><td>Data Out</td><td>"##);
    push_str(&mut s, data_out.as_str());
    push_str(&mut s, r##"</td></tr>
</table>
</div>

<div class="card">
<h3>Per-Bucket Statistics</h3>
"##);
    push_str(&mut s, table.as_str());
    push_str(&mut s, r##"
</div>

<div class="card">
<h3>Maintenance</h3>
<p style="margin-bottom:12px">Clean up expired multipart uploads and orphaned metadata files.</p>
<form method="post" action="/ui/admin/cleanup">
<button type="submit" class="btn btn-primary">Run Cleanup</button>
</form>
</div>"##);
    page("Admin", s.as_str())
}

// ---------------------------------------------------------------------------
// Breadcrumb

/// The links of a breadcrumb for the folders `parts`, each folder's link
/// carrying the path up to it; the last folder is plain text.
pub open spec fn crumbs(bucket: Seq<char>, parts: Seq<Seq<char>>, path: Seq<char>) -> Seq<char>
    decreases parts.len(),
{
    if parts.len() == 0 {
        Seq::empty()
    } else if parts.len() == 1 {
        " / "@ + parts[0]
    } else {
        let path2 = path + parts[0] + "/"@;
        crumb_link(bucket, path2, parts[0]) + crumbs(bucket, parts.drop_first(), path2)
    }
}

pub open spec fn crumb_link(bucket: Seq<char>, path: Seq<char>, part: Seq<char>) -> Seq<char> {
    r##" / <a href="/ui/buckets/"##@ + bucket + r##"?prefix="##@ + path + r##"">"##@ + part + r##"</a>"##@
}

/// The breadcrumb of a bucket and prefix: buckets, the bucket, then each
/// folder of the prefix.
pub open spec fn spec_breadcrumb(bucket: Seq<char>, prefix: Seq<char>) -> Seq<char> {
    (r##"<a href="/ui/buckets">Buckets</a> / <a href="/ui/buckets/"##@ + bucket + r##"">"##@ + bucket + r##"</a>"##@) + if prefix.len() == 0 {
        Seq::empty()
    } else {
        crumbs(bucket, split_on(trim_end_matches(prefix, "/"@), "/"@), Seq::empty())
    }
}

/// The breadcrumb of a bucket and prefix.
pub fn build_breadcrumb(bucket: &str, prefix: &str) -> (r: String)
    ensures
        r@ == spec_breadcrumb(bucket@, prefix@),
{
    proof {
        reveal_strlit("/");
    }
    let mut s = String::new();
    push_str(&mut s, r##"<a href="/ui/buckets">Buckets</a> / <a href="/ui/buckets/"##);
    push_str(&mut s, bucket);
    push_str(&mut s, r##"">"##);
    push_str(&mut s, bucket);
    push_str(&mut s, r##"</a>"##);
    let pc = chars_of(prefix);
    if pc.len() == 0 {
        return s;
    }
    let ghost head = s@;
    let trimmed = crate::storage::trim_suffix_repeatedly(prefix, "/");
    let tc = chars_of(trimmed.as_str());
    let slash = chars_of("/");
    let parts = split_chars(&tc, &slash);
    let ghost ps = crate::text::vviews(parts@);
    let mut path = String::new();
    let mut i: usize = 0;
    assert(ps.skip(0) =~= ps);
    while i < parts.len()
        invariant
            i <= parts.len(),
            ps == crate::text::vviews(parts@),
            slash@ == "/"@,
            head + crumbs(bucket@, ps, Seq::empty()) == s@ + crumbs(bucket@, ps.skip(i as int), path@),
        decreases parts.len() - i,
    {
        proof {
            reveal_strlit("/");
        }
        let part = string_from_chars(&parts[i]);
        assert(ps.skip(i as int)[0] == part@);
        assert(ps.skip(i as int).drop_first() =~= ps.skip(i + 1));
        push_str(&mut path, part.as_str());
        push_str(&mut path, "/");
        if i + 1 < parts.len() {
            push_str(&mut s, r##" / <a href="/ui/buckets/"##);
            push_str(&mut s, bucket);
            push_str(&mut s, r##"?prefix="##);
            push_str(&mut s, path.as_str());
            push_str(&mut s, r##"">"##);
            push_str(&mut s, part.as_str());
            push_str(&mut s, r##"</a>"##);
        } else {
            push_str(&mut s, " / ");
            push_str(&mut s, part.as_str());
            assert(ps.skip(i + 1) =~= Seq::<Seq<char>>::empty());
        }
        i = i + 1;
    }
    s
}

// ---------------------------------------------------------------------------
// Where forms send the browser

/// The error text of an error: its code, `: ` and its message.
pub open spec fn error_text(e: S3Error) -> Seq<char> {
    crate::error::spec_code(e) + ": "@ + crate::error::spec_message(e)
}

/// After creating a bucket from the buckets page.
pub open spec fn spec_create_bucket_location(name: Seq<char>, result: Option<Result<(), S3Error>>) -> Seq<char> {
    match result {
        None => "/ui/buckets?error=Name+required"@,
        Some(Ok(())) => "/ui/buckets?msg=Bucket+"@ + name + "+created"@,
        Some(Err(e)) => "/ui/buckets?error="@ + error_text(e),
    }
}

/// After creating a bucket from the buckets page: `None` when the form
/// named no bucket, else the creation's result.
pub fn create_bucket_location(name: &str, result: &Option<Result<(), S3Error>>) -> (r: String)
    ensures
        r@ == spec_create_bucket_location(name@, *result),
{
    match result {
        None => copy_str("/ui/buckets?error=Name+required"),
        Some(Ok(())) => {
            let mut s = copy_str("/ui/buckets?msg=Bucket+");
            push_str(&mut s, name);
            push_str(&mut s, "+created");
            s
        },
        Some(Err(e)) => {
            let mut s = copy_str("/ui/buckets?error=");
            let t = e.to_display_string();
            push_str(&mut s, t.as_str());
            s
        },
    }
}

/// After deleting a bucket from the buckets page.
pub open spec fn spec_delete_bucket_location(bucket: Seq<char>, result: Result<(), S3Error>) -> Seq<char> {
    match result {
        Ok(()) => "/ui/buckets?msg=Bucket+"@ + bucket + "+deleted"@,
        Err(e) => "/ui/buckets?error="@ + error_text(e),
    }
}

/// After deleting a bucket from the buckets page.
pub fn delete_bucket_location(bucket: &str, result: &Result<(), S3Error>) -> (r: String)
    ensures
        r@ == spec_delete_bucket_location(bucket@, *result),
{
    match result {
        Ok(()) => {
            let mut s = copy_str("/ui/buckets?msg=Bucket+");
            push_str(&mut s, bucket);
            push_str(&mut s, "+deleted");
            s
        },
        Err(e) => {
            let mut s = copy_str("/ui/buckets?error=");
            let t = e.to_display_string();
            push_str(&mut s, t.as_str());
            s
        },
    }
}

/// The folder of a key: up to and including its last `/`, or nothing.
pub open spec fn spec_key_folder(key: Seq<char>) -> Seq<char> {
    match last_index_of(key, '/') {
        Some(j) => key.take(j + 1),
        None => Seq::empty(),
    }
}

/// The folder of a key.
pub fn key_folder(key: &str) -> (r: String)
    ensures
        r@ == spec_key_folder(key@),
{
    let k = chars_of(key);
    assert(k@.take(k.len() as int) =~= key@);
    match last_index_exec(&k, k.len(), '/') {
        Some(j) => {
            let h = slice_chars(&k, 0, j + 1);
            assert(h@ =~= key@.take(j + 1));
            string_from_chars(&h)
        },
        None => String::new(),
    }
}

/// After deleting an object from the objects page: `None` when the form
/// named no key, else the deletion's result.
pub open spec fn spec_delete_object_location(bucket: Seq<char>, key: Seq<char>, result: Option<Result<(), S3Error>>) -> Seq<char> {
    match result {
        None => "/ui/buckets/"@ + bucket,
        Some(Ok(())) => "/ui/buckets/"@ + bucket + "?prefix="@ + spec_key_folder(key) + "&msg=Deleted"@,
        Some(Err(e)) => "/ui/buckets/"@ + bucket + "?prefix="@ + spec_key_folder(key) + "&error="@ + error_text(e),
    }
}

/// After deleting an object from the objects page.
pub fn delete_object_location(bucket: &str, key: &str, result: &Option<Result<(), S3Error>>) -> (r: String)
    ensures
        r@ == spec_delete_object_location(bucket@, key@, *result),
{
    let mut s = copy_str("/ui/buckets/");
    push_str(&mut s, bucket);
    match result {
        None => {},
        Some(res) => {
            let folder = key_folder(key);
            push_str(&mut s, "?prefix=");
            push_str(&mut s, folder.as_str());
            match res {
                Ok(()) => push_str(&mut s, "&msg=Deleted"),
                Err(e) => {
                    push_str(&mut s, "&error=");
                    let t = e.to_display_string();
                    push_str(&mut s, t.as_str());
                },
            }
        },
    }
    s
}

/// After an upload from the upload form: `None` when the form carried no
/// file name or no data, else the result of storing the file.
pub open spec fn spec_upload_location(bucket: Seq<char>, prefix: Seq<char>, filename: Seq<char>, result: Option<Result<(), S3Error>>) -> Seq<char> {
    "/ui/buckets/"@ + bucket + "?prefix="@ + prefix + match result {
        None => Seq::empty(),
        Some(Ok(())) => "&msg=Uploaded+"@ + filename,
        Some(Err(e)) => "&error="@ + error_text(e),
    }
}

/// After an upload from the upload form.
pub fn upload_location(bucket: &str, prefix: &str, filename: &str, result: &Option<Result<(), S3Error>>) -> (r: String)
    ensures
        r@ == spec_upload_location(bucket@, prefix@, filename@, *result),
{
    let mut s = copy_str("/ui/buckets/");
    push_str(&mut s, bucket);
    push_str(&mut s, "?prefix=");
    push_str(&mut s, prefix);
    match result {
        None => {},
        Some(Ok(())) => {
            push_str(&mut s, "&msg=Uploaded+");
            push_str(&mut s, filename);
        },
        Some(Err(e)) => {
            push_str(&mut s, "&error=");
            let t = e.to_display_string();
            push_str(&mut s, t.as_str());
        },
    }
    s
}

/// Whether an upload form is complete: it names a file and carries data.
pub fn upload_complete(filename: &str, data: &[u8]) -> (r: bool)
    ensures
        r == (filename@.len() > 0 && data@.len() > 0),
{
    chars_of(filename).len() > 0 && data.len() > 0
}

/// The key an uploaded file is stored under: the form's prefix, then the
/// file name.
pub fn upload_key(prefix: &str, filename: &str) -> (r: String)
    ensures
        r@ == prefix@ + filename@,
{
    let mut s = copy_str(prefix);
    push_str(&mut s, filename);
    s
}

/// After a cleanup run from the admin page.
pub open spec fn spec_cleanup_location(multipart: u64, orphans: u64) -> Seq<char> {
    "/ui/admin?msg=Cleaned+"@ + dec_digits(multipart as nat) + "+multipart+"@ + dec_digits(orphans as nat) + "+orphans"@
}

/// After a cleanup run from the admin page.
pub fn cleanup_location(multipart: u64, orphans: u64) -> (r: String)
    ensures
        r@ == spec_cleanup_location(multipart, orphans),
{
    let mut s = copy_str("/ui/admin?msg=Cleaned+");
    push_decimal(&mut s, multipart);
    push_str(&mut s, "+multipart+");
    push_decimal(&mut s, orphans);
    push_str(&mut s, "+orphans");
    s
}


// ---------------------------------------------------------------------------
// Order of the table rows

/// The dashboard rows of the first `n` buckets: the row for `bs[i]` and
/// `sts[i]` at place `i`.
pub open spec fn dashboard_row_list(bs: Seq<BucketInfo>, sts: Seq<BucketStats>, n: nat) -> Seq<char> {
    Seq::new(n, |i: int| r##"<tr><td><a href="/ui/buckets/"##@ + bs[i].name@ + r##"" class="link">"##@ + bs[i].name@ + r##"</a></td><td>"##@ + byte_prefix(bs[i].created@, 10) + r##"</td><td>"##@ + dec_digits(sts[i].object_count as nat) + r##"</td><td>"##@ + spec_format_bytes(sts[i].total_size) + r##"</td></tr>"##@).flatten()
}

proof fn lemma_dashboard_rows_in_order(bs: Seq<BucketInfo>, sts: Seq<BucketStats>, n: nat)
    ensures
        dashboard_rows(bs, sts, n) == dashboard_row_list(bs, sts, n),
    decreases n,
{
    if n > 0 {
        lemma_dashboard_rows_in_order(bs, sts, (n - 1) as nat);
        let g = |i: int| r##"<tr><td><a href="/ui/buckets/"##@ + bs[i].name@ + r##"" class="link">"##@ + bs[i].name@ + r##"</a></td><td>"##@ + byte_prefix(bs[i].created@, 10) + r##"</td><td>"##@ + dec_digits(sts[i].object_count as nat) + r##"</td><td>"##@ + spec_format_bytes(sts[i].total_size) + r##"</td></tr>"##@;
        lemma_flatten_new_step(n, g);
        assert(dashboard_row(bs[n - 1], sts[n - 1]) == g(n - 1));
    }
}

/// The rows of the bucket table: the row for `bs[i]` and `sts[i]` at place
/// `i`.
pub open spec fn bucket_row_list(bs: Seq<BucketInfo>, sts: Seq<BucketStats>, n: nat) -> Seq<char> {
    Seq::new(n, |i: int| r##"<tr>
<td><a href="/ui/buckets/"##@ + bs[i].name@ + r##"" class="link">"##@ + bs[i].name@ + r##"</a></td>
<td>"##@ + byte_prefix(bs[i].created@, created_cut(bs[i].created@)) + r##"</td>
<td>"##@ + dec_digits(sts[i].object_count as nat) + r##"</td>
<td>"##@ + spec_format_bytes(sts[i].total_size) + r##"</td>
<td>
<form class="inline-form" method="post" action="/ui/buckets/"##@ + bs[i].name@ + r##"/delete" onsubmit="return confirm('Delete bucket "##@ + bs[i].name@ + r##"?')">
<button type="submit" class="btn btn-danger btn-sm">Delete</button>
</form>
</td>
</tr>"##@).flatten()
}

proof fn lemma_bucket_rows_in_order(bs: Seq<BucketInfo>, sts: Seq<BucketStats>, n: nat)
    ensures
        bucket_rows(bs, sts, n) == bucket_row_list(bs, sts, n),
    decreases n,
{
    if n > 0 {
        lemma_bucket_rows_in_order(bs, sts, (n - 1) as nat);
        let g = |i: int| r##"<tr>
<td><a href="/ui/buckets/"##@ + bs[i].name@ + r##"" class="link">"##@ + bs[i].name@ + r##"</a></td>
<td>"##@ + byte_prefix(bs[i].created@, created_cut(bs[i].created@)) + r##"</td>
<td>"##@ + dec_digits(sts[i].object_count as nat) + r##"</td>
<td>"##@ + spec_format_bytes(sts[i].total_size) + r##"</td>
<td>
<form class="inline-form" method="post" action="/ui/buckets/"##@ + bs[i].name@ + r##"/delete" onsubmit="return confirm('Delete bucket "##@ + bs[i].name@ + r##"?')">
<button type="submit" class="btn btn-danger btn-sm">Delete</button>
</form>
</td>
</tr>"##@;
        lemma_flatten_new_step(n, g);
        assert(bucket_row(bs[n - 1], sts[n - 1]) == g(n - 1));
    }
}

/// The rows of the admin table: the row for `bs[i]`, `sts[i]` and `ms[i]`
/// at place `i`.
pub open spec fn admin_row_list(bs: Seq<BucketInfo>, sts: Seq<BucketStats>, ms: Seq<Option<BucketMetrics>>, n: nat) -> Seq<char> {
    Seq::new(n, |i: int| r##"<tr><td>"##@ + bs[i].name@ + r##"</td><td>"##@ + dec_digits(sts[i].object_count as nat) + r##"</td><td>"##@ + spec_format_bytes(sts[i].total_size) + r##"</td><td>"##@ + dec_digits(metric_requests(ms[i]) as nat) + r##"</td><td>"##@ + spec_format_bytes(metric_in(ms[i])) + r##"</td><td>"##@ + spec_format_bytes(metric_out(ms[i])) + r##"</td></tr>"##@).flatten()
}

proof fn lemma_admin_rows_in_order(bs: Seq<BucketInfo>, sts: Seq<BucketStats>, ms: Seq<Option<BucketMetrics>>, n: nat)
    ensures
        admin_rows(bs, sts, ms, n) == admin_row_list(bs, sts, ms, n),
    decreases n,
{
    if n > 0 {
        lemma_admin_rows_in_order(bs, sts, ms, (n - 1) as nat);
        let g = |i: int| r##"<tr><td>"##@ + bs[i].name@ + r##"</td><td>"##@ + dec_digits(sts[i].object_count as nat) + r##"</td><td>"##@ + spec_format_bytes(sts[i].total_size) + r##"</td><td>"##@ + dec_digits(metric_requests(ms[i]) as nat) + r##"</td><td>"##@ + spec_format_bytes(metric_in(ms[i])) + r##"</td><td>"##@ + spec_format_bytes(metric_out(ms[i])) + r##"</td></tr>"##@;
        lemma_flatten_new_step(n, g);
        assert(admin_row(bs[n - 1], sts[n - 1], ms[n - 1]) == g(n - 1));
    }
}

/// The folder rows: the row for `cps[i]` at place `i`.
pub open spec fn folder_row_list(bucket: Seq<char>, prefix: Seq<char>, cps: Seq<Seq<char>>) -> Seq<char> {
    Seq::new(cps.len(), |i: int| r##"<tr><td><a href="/ui/buckets/"##@ + bucket + r##"?prefix="##@ + cps[i] + r##"" class="link">"##@ + strip_or_keep(cps[i], prefix) + r##"</a></td><td>—</td><td>Folder</td><td></td></tr>"##@).flatten()
}

proof fn lemma_folder_rows_in_order(bucket: Seq<char>, prefix: Seq<char>, cps: Seq<Seq<char>>)
    ensures
        folder_rows(bucket, prefix, cps) == folder_row_list(bucket, prefix, cps),
    decreases cps.len(),
{
    if cps.len() > 0 {
        let xd = cps.drop_last();
        lemma_folder_rows_in_order(bucket, prefix, xd);
        let g = |i: int| r##"<tr><td><a href="/ui/buckets/"##@ + bucket + r##"?prefix="##@ + cps[i] + r##"" class="link">"##@ + strip_or_keep(cps[i], prefix) + r##"</a></td><td>—</td><td>Folder</td><td></td></tr>"##@;
        let gd = |i: int| r##"<tr><td><a href="/ui/buckets/"##@ + bucket + r##"?prefix="##@ + xd[i] + r##"" class="link">"##@ + strip_or_keep(xd[i], prefix) + r##"</a></td><td>—</td><td>Folder</td><td></td></tr>"##@;
        lemma_flatten_new_step(cps.len(), g);
        assert(Seq::new(xd.len(), g) =~= Seq::new(xd.len(), gd));
        assert(folder_row(bucket, prefix, cps.last()) == g(cps.len() - 1));
    }
}

/// The object rows: the row for `os[i]` at place `i`.
pub open spec fn object_row_list(bucket: Seq<char>, prefix: Seq<char>, os: Seq<ObjectMetadata>) -> Seq<char> {
    Seq::new(os.len(), |i: int| r##"<tr>
<td><a href="/"##@ + bucket + r##"/"##@ + os[i].key@ + r##"" class="link" target="_blank">"##@ + strip_or_keep(os[i].key@, prefix) + r##"</a></td>
<td>"##@ + spec_format_bytes(os[i].size) + r##"</td>
<td>"##@ + byte_prefix(os[i].last_modified@, modified_cut(os[i].last_modified@)) + r##"</td>
<td>
<form class="inline-form" method="post" action="/ui/buckets/"##@ + bucket + r##"/delete-object" onsubmit="return confirm('Delete "##@ + strip_or_keep(os[i].key@, prefix) + r##"?')">
<input type="hidden" name="key" value=""##@ + os[i].key@ + r##"">
<button type="submit" class="btn btn-danger btn-sm">Delete</button>
</form>
</td>
</tr>"##@).flatten()
}

proof fn lemma_object_rows_in_order(bucket: Seq<char>, prefix: Seq<char>, os: Seq<ObjectMetadata>)
    ensures
        object_rows(bucket, prefix, os) == object_row_list(bucket, prefix, os),
    decreases os.len(),
{
    if os.len() > 0 {
        let xd = os.drop_last();
        lemma_object_rows_in_order(bucket, prefix, xd);
        let g = |i: int| r##"<tr>
<td><a href="/"##@ + bucket + r##"/"##@ + os[i].key@ + r##"" class="link" target="_blank">"##@ + strip_or_keep(os[i].key@, prefix) + r##"</a></td>
<td>"##@ + spec_format_bytes(os[i].size) + r##"</td>
<td>"##@ + byte_prefix(os[i].last_modified@, modified_cut(os[i].last_modified@)) + r##"</td>
<td>
<form class="inline-form" method="post" action="/ui/buckets/"##@ + bucket + r##"/delete-object" onsubmit="return confirm('Delete "##@ + strip_or_keep(os[i].key@, prefix) + r##"?')">
<input type="hidden" name="key" value=""##@ + os[i].key@ + r##"">
<button type="submit" class="btn btn-danger btn-sm">Delete</button>
</form>
</td>
</tr>"##@;
        let gd = |i: int| r##"<tr>
<td><a href="/"##@ + bucket + r##"/"##@ + xd[i].key@ + r##"" class="link" target="_blank">"##@ + strip_or_keep(xd[i].key@, prefix) + r##"</a></td>
<td>"##@ + spec_format_bytes(xd[i].size) + r##"</td>
<td>"##@ + byte_prefix(xd[i].last_modified@, modified_cut(xd[i].last_modified@)) + r##"</td>
<td>
<form class="inline-form" method="post" action="/ui/buckets/"##@ + bucket + r##"/delete-object" onsubmit="return confirm('Delete "##@ + strip_or_keep(xd[i].key@, prefix) + r##"?')">
<input type="hidden" name="key" value=""##@ + xd[i].key@ + r##"">
<button type="submit" class="btn btn-danger btn-sm">Delete</button>
</form>
</td>
</tr>"##@;
        lemma_flatten_new_step(os.len(), g);
        assert(Seq::new(xd.len(), g) =~= Seq::new(xd.len(), gd));
        assert(object_row(bucket, prefix, os.last()) == g(os.len() - 1));
    }
}

/// The dashboard's bucket table shows the first ten buckets (all of them
/// when there are fewer) in order: the i-th row shows the name and creation
/// date of `bs[i]` with the object count and formatted size of `sts[i]`.
pub proof fn lemma_dashboard_table_in_order(bs: Seq<BucketInfo>, sts: Seq<BucketStats>)
    ensures
        bs.len() == 0 ==> dashboard_table(bs, sts) == r##"<div class="empty">No buckets yet. <a href="/ui/buckets" class="link">Create one</a></div>"##@,
        bs.len() > 0 ==> dashboard_table(bs, sts) == r##"<table><tr><th>Name</th><th>Created</th><th>Objects</th><th>Size</th></tr>"##@
            + dashboard_row_list(bs, sts, if bs.len() < 10 { bs.len() } else { 10 }) + r##"</table>"##@,
{
    lemma_dashboard_rows_in_order(bs, sts, dashboard_count(bs.len()));
}

/// The buckets page lists every bucket in order: the i-th row shows the
/// name and creation date of `bs[i]` with the object count and formatted
/// size of `sts[i]`, and the form that deletes `bs[i]`.
pub proof fn lemma_buckets_table_in_order(bs: Seq<BucketInfo>, sts: Seq<BucketStats>)
    ensures
        bs.len() == 0 ==> buckets_table(bs, sts) == r##"<div class="empty">No buckets yet</div>"##@,
        bs.len() > 0 ==> buckets_table(bs, sts) == r##"<table><tr><th>Name</th><th>Created</th><th>Objects</th><th>Size</th><th>Actions</th></tr>"##@
            + bucket_row_list(bs, sts, bs.len()) + r##"</table>"##@,
{
    lemma_bucket_rows_in_order(bs, sts, bs.len());
}

/// The admin page lists every bucket in order: the i-th row shows the name
/// of `bs[i]`, the object count and size of `sts[i]`, and the request
/// count and traffic of `ms[i]`.
pub proof fn lemma_admin_table_in_order(bs: Seq<BucketInfo>, sts: Seq<BucketStats>, ms: Seq<Option<BucketMetrics>>)
    ensures
        bs.len() == 0 ==> admin_table(bs, sts, ms) == r##"<div class="empty">No buckets</div>"##@,
        bs.len() > 0 ==> admin_table(bs, sts, ms) == r##"<table><tr><th>Bucket</th><th>Objects</th><th>Size</th><th>Requests</th><th>Data In</th><th>Data Out</th></tr>"##@
            + admin_row_list(bs, sts, ms, bs.len()) + r##"</table>"##@,
{
    lemma_admin_rows_in_order(bs, sts, ms, bs.len());
}

/// The object browser lists, below the row leading up (when inside a
/// folder), one row for each common prefix in order, then one row for each
/// object in order: the i-th object row links and deletes `r.objects[i]`
/// and shows its size and date.
pub proof fn lemma_listing_rows_in_order(bucket: Seq<char>, prefix: Seq<char>, r: ListObjectsResult)
    ensures
        listing_rows(bucket, prefix, r) == (if prefix.len() > 0 {
            parent_row(bucket, spec_parent_prefix(prefix))
        } else {
            Seq::empty()
        }) + folder_row_list(bucket, prefix, sviews(r.common_prefixes@)) + object_row_list(bucket, prefix, r.objects@),
{
    lemma_folder_rows_in_order(bucket, prefix, sviews(r.common_prefixes@));
    lemma_object_rows_in_order(bucket, prefix, r.objects@);
}


} // verus!
