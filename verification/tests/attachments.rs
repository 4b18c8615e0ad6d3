use himalaya::attachments::{
    download_summary, is_inline, mime_string, AttachmentDownloadCommand, AttachmentListCommand,
    AttachmentPart, Attachments, MediaType,
};
use himalaya::filename::{sanitize, select_unique_path, unique_path};
use himalaya::size::human_size;
use himalaya::table::TableArrangement;

fn part(name: Option<&str>, ct: Option<(&str, Option<&str>)>, disposition: Option<&str>, len: usize) -> AttachmentPart {
    AttachmentPart {
        name: name.map(|s| s.to_string()),
        content_type: ct.map(|(t, s)| MediaType {
            c_type: t.to_string(),
            c_subtype: s.map(|s| s.to_string()),
        }),
        disposition: disposition.map(|s| s.to_string()),
        contents: vec![0u8; len],
    }
}

/// The listing's size column as the float arithmetic computes it.
fn float_human_size(bytes: u64) -> String {
    const UNITS: [&str; 5] = ["B", "KiB", "MiB", "GiB", "TiB"];
    let mut size = bytes as f64;
    let mut unit = 0;
    while size >= 1024.0 && unit < UNITS.len() - 1 {
        size /= 1024.0;
        unit += 1;
    }
    if unit == 0 {
        format!("{bytes} B")
    } else {
        format!("{size:.1} {}", UNITS[unit])
    }
}

#[test]
fn human_size_examples() {
    assert_eq!(human_size(0), "0 B");
    assert_eq!(human_size(1023), "1023 B");
    assert_eq!(human_size(1024), "1.0 KiB");
    assert_eq!(human_size(1536), "1.5 KiB");
    assert_eq!(human_size(3 * 1024 * 1024), "3.0 MiB");
    assert_eq!(human_size(5 * 1024 * 1024 * 1024), "5.0 GiB");
    assert_eq!(human_size(1024u64.pow(4)), "1.0 TiB");
    assert_eq!(human_size(2 * 1024u64.pow(5)), "2048.0 TiB");
}

#[test]
fn human_size_matches_float_formatting() {
    let mut values: Vec<u64> = (0..5000).collect();
    for k in 1..5u32 {
        let p = 1024u64.pow(k);
        for d in 0..200u64 {
            values.push(p - d);
            values.push(p + d);
            values.push(p + p / 20 + d);
            values.push(p / 1024 * 1023 + d);
        }
    }
    // Exact ties between two tenths, and values past 2^53.
    values.extend_from_slice(&[2304, 1024 + 256, 2560, 3 * 1024 * 1024 + 262144]);
    let mut x: u64 = 0x9e3779b97f4a7c15;
    for _ in 0..20000 {
        x ^= x << 13;
        x ^= x >> 7;
        x ^= x << 17;
        values.push(x);
        values.push(x >> (x % 64));
    }
    values.extend_from_slice(&[u64::MAX, u64::MAX - 1, 1 << 53, (1 << 53) + 1, (1 << 54) + 3, (1 << 63) + 1025]);
    for v in values {
        assert_eq!(human_size(v), float_human_size(v), "size {v}");
    }
}

#[test]
fn sanitize_strips_separators_and_dots() {
    assert_eq!(sanitize("  report.pdf  "), "report.pdf");
    assert_eq!(sanitize("../etc/passwd"), "_etc_passwd");
    assert_eq!(sanitize("a\\b\0c"), "a_b_c");
    assert_eq!(sanitize(".hidden"), "hidden");
    assert_eq!(sanitize(""), "attachment");
    assert_eq!(sanitize("..."), "attachment");
    assert_eq!(sanitize(". .."), "attachment");
    assert_eq!(sanitize(". ."), "attachment");
    assert_eq!(sanitize(".. .a"), ".a");
    assert_eq!(sanitize(". . ."), ". .");
}

#[test]
fn sanitize_never_gives_a_traversal() {
    for name in ["report.pdf", "  ../x/y ", "a\\b", "", "weird\u{2003}name ", ". ..", ". .", " . . .. ", ".. .a"] {
        let once = sanitize(name);
        assert!(once != "." && once != ".." && !once.is_empty());
        assert!(!once.contains('/') && !once.contains('\\') && !once.contains('\0'));
        assert_eq!(once, once.trim());
        if !once.starts_with('.') {
            assert_eq!(sanitize(&once), once);
        }
    }
}

#[test]
fn select_unique_path_picks_first_free_candidate() {
    let pick = |dir: &str, name: &str, taken: &Vec<bool>| select_unique_path(dir, name, taken);
    assert_eq!(pick("dir", "a.txt", &vec![false]).as_deref(), Some("dir/a.txt"));
    assert_eq!(pick("dir", "a.txt", &vec![true, true, false]).as_deref(), Some("dir/a (2).txt"));
    assert_eq!(pick("dir/", "archive.tar.gz", &vec![true, false]).as_deref(), Some("dir/archive.tar (1).gz"));
    assert_eq!(pick("", ".bashrc", &vec![true, false]).as_deref(), Some(".bashrc (1)"));
    assert_eq!(pick("d", "noext", &vec![true, true, true, false]).as_deref(), Some("d/noext (3)"));
    assert_eq!(pick("d", "a.txt", &vec![true; 2000]), None);
    assert_eq!(pick("d", "a.txt", &vec![true; 1024]), None);
    assert_eq!(pick("d", "a.txt", &vec![]), None);
}

#[test]
fn unique_path_in_missing_directory() {
    let dir = "/this/directory/does/not/exist/anywhere";
    assert_eq!(unique_path(dir, "a.txt"), Some(format!("{dir}/a.txt")));
}

#[test]
fn unique_path_skips_an_existing_entry() {
    assert_eq!(unique_path("/", "tmp"), Some("/tmp (1)".to_string()));
}

#[test]
fn inline_and_mime() {
    assert!(is_inline(&part(None, None, Some("INLINE"), 0)));
    assert!(is_inline(&part(None, None, Some("inline"), 0)));
    assert!(!is_inline(&part(None, None, Some("attachment"), 0)));
    assert!(!is_inline(&part(None, None, None, 0)));
    assert_eq!(mime_string(&part(None, Some(("application", Some("pdf"))), None, 0)), Some("application/pdf".to_string()));
    assert_eq!(mime_string(&part(None, Some(("text", None)), None, 0)), Some("text".to_string()));
    assert_eq!(mime_string(&part(None, None, None, 0)), None);
}

fn four_parts() -> Vec<AttachmentPart> {
    vec![
        part(Some("a.pdf"), Some(("application", Some("pdf"))), Some("attachment"), 10),
        part(Some("b.txt"), Some(("text", Some("plain"))), Some("attachment"), 2048),
        part(Some("logo.png"), Some(("image", Some("png"))), Some("inline"), 5),
        part(None, None, None, 0),
    ]
}

#[test]
fn listing_ids_are_stable_across_inline_filter() {
    let parts = four_parts();
    let cmd = |inline| AttachmentListCommand { mailbox_id: "INBOX".into(), message_id: "1".into(), inline };
    let default: Vec<String> = cmd(false).collect(&parts).into_iter().map(|a| a.id).collect();
    let with_inline: Vec<String> = cmd(true).collect(&parts).into_iter().map(|a| a.id).collect();
    assert_eq!(default, vec!["1", "2", "4"]);
    assert_eq!(with_inline, vec!["1", "2", "3", "4"]);
    let rows = cmd(true).collect(&parts);
    assert_eq!(rows[1].filename.as_deref(), Some("b.txt"));
    assert_eq!(rows[1].mime.as_deref(), Some("text/plain"));
    assert_eq!(rows[1].size, 2048);
    assert!(rows[2].inline);
    assert_eq!(rows[3].filename, None);
    assert_eq!(rows[3].mime, None);
}

#[test]
fn listing_renders_header_and_rows() {
    let parts = four_parts();
    let cmd = AttachmentListCommand { mailbox_id: "INBOX".into(), message_id: "1".into(), inline: true };
    let listing = Attachments {
        preset: comfy_table::presets::UTF8_FULL_CONDENSED.to_string(),
        arrangement: TableArrangement::Disabled,
        with_inline: true,
        attachments: cmd.collect(&parts),
    };
    assert_eq!(listing.header(), vec!["ID", "FILENAME", "TYPE", "SIZE", "INLINE"]);
    assert_eq!(listing.row(&listing.attachments[1]), vec!["2", "b.txt", "text/plain", "2.0 KiB", "no"]);
    assert_eq!(listing.row(&listing.attachments[3]), vec!["4", "", "", "0 B", "no"]);
    let text = listing.render();
    assert!(text.starts_with('\n') && text.ends_with('\n'));
    assert!(text.contains("FILENAME") && text.contains("logo.png") && text.contains("2.0 KiB"));
}

#[test]
fn download_plan_selects_and_reports_missing_ids() {
    let parts = four_parts();
    let cmd = AttachmentDownloadCommand {
        mailbox_id: "INBOX".into(),
        message_id: "42".into(),
        attachment_ids: vec!["4".into(), "7".into(), "10".into(), "x".into(), "2".into(), "7".into()],
        dir: None,
    };
    let plan = cmd.plan(&parts);
    let got: Vec<(usize, String, String)> = plan.downloads.iter().map(|d| (d.index, d.id.clone(), d.file_name.clone())).collect();
    assert_eq!(got, vec![(1, "2".to_string(), "b.txt".to_string()), (3, "4".to_string(), "attachment-4".to_string())]);
    assert_eq!(plan.missing, vec!["10", "7", "x"]);
    assert_eq!(cmd.missing_error(&plan.missing), "no attachment with id 10, 7, x on message `42`");
}

#[test]
fn download_without_ids_takes_every_part() {
    let parts = four_parts();
    let cmd = AttachmentDownloadCommand {
        mailbox_id: "INBOX".into(),
        message_id: "42".into(),
        attachment_ids: vec![],
        dir: Some("/tmp/out".into()),
    };
    let plan = cmd.plan(&parts);
    let ids: Vec<&str> = plan.downloads.iter().map(|d| d.id.as_str()).collect();
    assert_eq!(ids, vec!["1", "2", "3", "4"]);
    assert!(plan.missing.is_empty());
    assert_eq!(cmd.target_dir(&"/home/me/Downloads".to_string()), "/tmp/out");
    let cmd2 = AttachmentDownloadCommand { dir: None, ..cmd };
    assert_eq!(cmd2.target_dir(&"/home/me/Downloads".to_string()), "/home/me/Downloads");
}

#[test]
fn download_summary_text() {
    assert_eq!(
        download_summary(&vec!["/d/a.pdf".to_string(), "/d/b.txt".to_string()]),
        "Downloaded 2 attachment(s):\n - /d/a.pdf\n - /d/b.txt"
    );
    assert_eq!(download_summary(&vec![]), "Downloaded 0 attachment(s):\n - ");
}

const MIME_MESSAGE: &str = "From: alice@example.com\r\n\
To: bob@example.com\r\n\
Subject: files\r\n\
MIME-Version: 1.0\r\n\
Content-Type: multipart/mixed; boundary=\"XX\"\r\n\
\r\n\
--XX\r\n\
Content-Type: text/plain\r\n\
\r\n\
Hello\r\n\
--XX\r\n\
Content-Type: application/pdf; name=\"report.pdf\"\r\n\
Content-Disposition: attachment; filename=\"report.pdf\"\r\n\
\r\n\
PDFDATA\r\n\
--XX\r\n\
Content-Type: image/png\r\n\
Content-Disposition: inline\r\n\
\r\n\
PNG\r\n\
--XX--\r\n";

#[test]
fn attachments_of_a_raw_message() {
    let cmd = AttachmentListCommand { mailbox_id: "INBOX".into(), message_id: "1".into(), inline: false };
    let rows = cmd.attachments(MIME_MESSAGE.as_bytes()).unwrap();
    assert_eq!(rows.len(), 1);
    assert_eq!(rows[0].id, "1");
    assert_eq!(rows[0].filename.as_deref(), Some("report.pdf"));
    assert_eq!(rows[0].mime.as_deref(), Some("application/pdf"));
    let cmd = AttachmentListCommand { inline: true, ..cmd };
    let rows = cmd.attachments(MIME_MESSAGE.as_bytes()).unwrap();
    assert_eq!(rows.len(), 2);
    assert_eq!(rows[1].id, "2");
    assert!(rows[1].inline);
    assert_eq!(rows[1].mime.as_deref(), Some("image/png"));
}

#[test]
fn download_plan_of_a_raw_message() {
    let cmd = AttachmentDownloadCommand {
        mailbox_id: "INBOX".into(),
        message_id: "1".into(),
        attachment_ids: vec!["1".into()],
        dir: None,
    };
    let (parts, plan) = cmd.plan_raw(MIME_MESSAGE.as_bytes()).unwrap();
    assert_eq!(parts.len(), 2);
    assert_eq!(plan.downloads.len(), 1);
    assert_eq!(plan.downloads[0].file_name, "report.pdf");
    assert!(String::from_utf8_lossy(&parts[0].contents).contains("PDFDATA"));
}

#[test]
fn unparsable_message_is_reported() {
    let cmd = AttachmentListCommand { mailbox_id: "INBOX".into(), message_id: "1".into(), inline: false };
    let err = cmd.attachments(b"").unwrap_err();
    assert_eq!(err.message(), "Failed to parse RFC 5322 message");
}

#[test]
fn size_units_never_go_down() {
    let unit = |b: u64| human_size(b).rsplit(' ').next().unwrap().to_string();
    let rank = |u: &str| ["B", "KiB", "MiB", "GiB", "TiB"].iter().position(|x| *x == u).unwrap();
    let samples = [0u64, 1023, 1024, 1048575, 1048576, 1 << 30, (1 << 40) - 1, 1 << 40, 1 << 53, u64::MAX];
    for w in samples.windows(2) {
        assert!(rank(&unit(w[0])) <= rank(&unit(w[1])));
    }
    assert_eq!(unit(1023), "B");
    assert_eq!(unit(u64::MAX), "TiB");
}
