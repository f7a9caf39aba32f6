use miniminio::error::S3Error;
use miniminio::metrics::{BucketMetrics, MetricsSnapshot};
use miniminio::storage::{BucketInfo, BucketStats, ListObjectsResult, ObjectMetadata};
use miniminio::strmap::StrMap;
use miniminio::ui::{
    admin_page, build_breadcrumb, buckets_page, cleanup_location, create_bucket_location, dashboard,
    delete_bucket_location, delete_object_location, flash_html, key_folder, login_accepted, login_page, objects_page,
    page, parent_prefix, upload_complete, upload_key, upload_location, upload_page,
};

fn snap() -> MetricsSnapshot {
    MetricsSnapshot {
        requests_total: 7,
        requests_get: 3,
        requests_put: 2,
        requests_delete: 1,
        requests_head: 1,
        bytes_in: 2048,
        bytes_out: 10,
        errors_total: 0,
        uptime_secs: 3700,
    }
}

#[test]
fn breadcrumb_links_each_folder() {
    let head = r#"<a href="/ui/buckets">Buckets</a> / <a href="/ui/buckets/b">b</a>"#;
    assert_eq!(build_breadcrumb("b", ""), head);
    assert_eq!(build_breadcrumb("b", "x/"), format!("{head} / x"));
    assert_eq!(
        build_breadcrumb("b", "x/y/"),
        format!(r#"{head} / <a href="/ui/buckets/b?prefix=x/">x</a> / y"#)
    );
    assert_eq!(
        build_breadcrumb("b", "x/y/z"),
        format!(r#"{head} / <a href="/ui/buckets/b?prefix=x/">x</a> / <a href="/ui/buckets/b?prefix=x/y/">y</a> / z"#)
    );
}

#[test]
fn folders_above_and_of_keys() {
    assert_eq!(parent_prefix("a/b/"), "a/");
    assert_eq!(parent_prefix("a/"), "");
    assert_eq!(parent_prefix("a/b/c"), "a/b/");
    assert_eq!(key_folder("a/b/c.txt"), "a/b/");
    assert_eq!(key_folder("c.txt"), "");
}

#[test]
fn page_shell_wraps_content() {
    let p = page("T", "<p>x</p>");
    assert!(p.starts_with("<!DOCTYPE html>\n<html lang=\"en\">"));
    assert!(p.contains("<title>T — MiniMinio</title>"));
    assert!(p.contains("* { margin: 0; padding: 0; box-sizing: border-box; }"));
    assert!(p.contains("<div class=\"main\">\n<p>x</p>\n</div>"));
    assert!(p.ends_with("</html>"));
    assert!(login_page().contains("<form method=\"post\" action=\"/ui/login\">"));
}

#[test]
fn login_checks_both_keys() {
    assert!(login_accepted(Some("ak"), Some("sk"), "ak", "sk"));
    assert!(!login_accepted(Some("ak"), Some("x"), "ak", "sk"));
    assert!(!login_accepted(None, Some("sk"), "ak", "sk"));
    assert!(login_accepted(None, None, "", ""));
}

#[test]
fn notices() {
    assert_eq!(flash_html(None, true), "");
    assert_eq!(flash_html(Some("ok"), true), r#"<div class="flash flash-success">ok</div>"#);
    assert_eq!(flash_html(Some("bad"), false), r#"<div class="flash flash-error">bad</div>"#);
}

#[test]
fn dashboard_lists_recent_buckets() {
    let buckets: Vec<BucketInfo> = (0..12)
        .map(|i| BucketInfo { name: format!("b{i:02}"), created: "2024-05-01T10:00:00.000Z".into() })
        .collect();
    let stats = vec![BucketStats { object_count: 2, total_size: 1536 }; 10];
    let total = BucketStats { object_count: 20, total_size: 15360 };
    let d = dashboard(&total, &snap(), &buckets, &stats);
    assert!(d.contains("<div class=\"label\">Buckets</div><div class=\"value\">12</div>"));
    assert!(d.contains(r#"<tr><td><a href="/ui/buckets/b00" class="link">b00</a></td><td>2024-05-01</td><td>2</td><td>1.50 KB</td></tr>"#));
    assert!(d.contains("b09"));
    assert!(!d.contains("b10"));
    assert!(d.contains("<div class=\"value\">1h 1m</div>"));
    let empty = dashboard(&total, &snap(), &vec![], &vec![]);
    assert!(empty.contains("No buckets yet. <a href=\"/ui/buckets\" class=\"link\">Create one</a>"));
}

#[test]
fn bucket_table() {
    let buckets = vec![BucketInfo { name: "photos".into(), created: "2024".into() }];
    let stats = vec![BucketStats { object_count: 1, total_size: 10 }];
    let p = buckets_page(&buckets, &stats, Some("done"), None);
    assert!(p.contains("<td><a href=\"/ui/buckets/photos\" class=\"link\">photos</a></td>\n<td>2024</td>\n<td>1</td>\n<td>10 B</td>"));
    assert!(p.contains("<h3>All Buckets (1)</h3>"));
    assert!(p.contains(r#"<div class="flash flash-success">done</div>"#));
    assert!(p.contains("pattern=\"[a-z0-9][a-z0-9.\\-]{2,62}\""));
    let none = buckets_page(&vec![], &vec![], None, Some("oops"));
    assert!(none.contains("<div class=\"empty\">No buckets yet</div>"));
    assert!(none.contains(r#"<div class="flash flash-error">oops</div>"#));
}

fn obj(key: &str) -> ObjectMetadata {
    ObjectMetadata {
        key: key.into(),
        size: 2048,
        etag: "e".into(),
        content_type: "text/plain".into(),
        last_modified: "2024-05-01T10:00:00.000Z".into(),
        user_metadata: StrMap::new(),
    }
}

#[test]
fn object_browser() {
    let r = ListObjectsResult {
        objects: vec![obj("docs/a.txt")],
        common_prefixes: vec!["docs/sub/".into()],
        is_truncated: false,
        next_continuation_token: None,
    };
    let p = objects_page("b", "docs/", None, &r);
    assert!(p.contains(r#"<tr><td><a href="/ui/buckets/b?prefix=" class="link">..</a></td><td>—</td><td>—</td><td></td></tr>"#));
    assert!(p.contains(r#"<a href="/ui/buckets/b?prefix=docs/sub/" class="link">sub/</a></td><td>—</td><td>Folder</td>"#));
    assert!(p.contains(r#"<td><a href="/b/docs/a.txt" class="link" target="_blank">a.txt</a></td>"#));
    assert!(p.contains("<td>2.00 KB</td>\n<td>2024-05-01T10:00:00</td>"));
    assert!(p.contains("<title>b — MiniMinio</title>"));
    let empty = ListObjectsResult { objects: vec![], common_prefixes: vec![], is_truncated: false, next_continuation_token: None };
    assert!(objects_page("b", "", Some("hi"), &empty).contains("No objects in this location"));
}

#[test]
fn upload_and_admin_pages() {
    let u = upload_page("b", "p/");
    assert!(u.contains(r#"<form method="post" action="/ui/buckets/b/upload?prefix=p/" enctype="multipart/form-data">"#));
    let buckets = vec![BucketInfo { name: "b".into(), created: "x".into() }];
    let stats = vec![BucketStats { object_count: 1, total_size: 5 }];
    let metrics = vec![Some(BucketMetrics { requests: 4, bytes_in: 2048, bytes_out: 0 })];
    let a = admin_page("0.1.0", &snap(), &BucketStats { object_count: 1, total_size: 5 }, &buckets, &stats, &metrics);
    assert!(a.contains("<div class=\"value\">v0.1.0</div>"));
    assert!(a.contains("<tr><td>b</td><td>1</td><td>5 B</td><td>4</td><td>2.00 KB</td><td>0 B</td></tr>"));
    assert!(a.contains("<tr><td>GET Requests</td><td>3</td></tr>"));
    let no_metrics = admin_page("0.1.0", &snap(), &BucketStats::default(), &buckets, &stats, &vec![None]);
    assert!(no_metrics.contains("<tr><td>b</td><td>1</td><td>5 B</td><td>0</td><td>0 B</td><td>0 B</td></tr>"));
}

#[test]
fn redirects_after_forms() {
    assert_eq!(create_bucket_location("x", &None), "/ui/buckets?error=Name+required");
    assert_eq!(create_bucket_location("x", &Some(Ok(()))), "/ui/buckets?msg=Bucket+x+created");
    assert_eq!(
        create_bucket_location("X", &Some(Err(S3Error::InvalidBucketName("bad".into())))),
        "/ui/buckets?error=InvalidBucketName: The specified bucket is not valid: bad"
    );
    assert_eq!(delete_bucket_location("x", &Ok(())), "/ui/buckets?msg=Bucket+x+deleted");
    assert_eq!(delete_object_location("b", "", &None), "/ui/buckets/b");
    assert_eq!(delete_object_location("b", "d/k", &Some(Ok(()))), "/ui/buckets/b?prefix=d/&msg=Deleted");
    assert_eq!(upload_location("b", "p/", "f", &None), "/ui/buckets/b?prefix=p/");
    assert_eq!(upload_location("b", "p/", "f", &Some(Ok(()))), "/ui/buckets/b?prefix=p/&msg=Uploaded+f");
    assert_eq!(cleanup_location(2, 0), "/ui/admin?msg=Cleaned+2+multipart+0+orphans");
    assert_eq!(upload_key("p/", "f.txt"), "p/f.txt");
    assert!(upload_complete("f", b"x"));
    assert!(!upload_complete("", b"x"));
    assert!(!upload_complete("f", b""));
}
