use base64::Engine;
use oar_ocr_web::error::AppError;
use oar_ocr_web::images::preview_base64;
use oar_ocr_web::request::RequestTracker;
use oar_ocr_web::routes::{link_preview, plan_ocr_json};

#[test]
fn successful_request_is_logged() {
    let mut t = RequestTracker::start("ocr", "base64");
    t.set_source("url", Some("https://a.com/x.png"));
    t.add_image(3, 2);
    t.add_image(1, 1);
    t.set_results(4, 12);
    let end = t.finish(0, 250, None);
    assert!(!end.release_engine);
    let e = end.entry;
    assert_eq!(e.timestamp, "1970-01-01T00:00:00Z");
    assert_eq!(e.request_type, "ocr");
    assert_eq!(e.image_source, "url");
    assert_eq!(e.image_url.as_deref(), Some("https://a.com/x.png"));
    assert_eq!(e.image_size_bytes, 21);
    assert_eq!(e.result_count, 4);
    assert_eq!(e.total_text_length, 12);
    assert_eq!(e.duration_ms, 250);
    assert_eq!(e.status, "success");
    assert_eq!(e.error_message, None);
}

#[test]
fn failed_request_is_logged_and_engine_released() {
    let mut t = RequestTracker::start("structure", "upload");
    t.set_image_size(1000);
    t.engine_acquired();
    let end = t.finish(86400, 7, Some(&AppError::StructureError("boom".to_string())));
    assert!(end.release_engine);
    assert_eq!(end.entry.status, "error");
    assert_eq!(end.entry.error_message.as_deref(), Some("结构识别失败: boom"));
    assert_eq!(end.entry.image_size_bytes, 1000);
    assert_eq!(end.entry.result_count, 0);
    assert_eq!(end.entry.timestamp, "1970-01-02T00:00:00Z");

    let t = RequestTracker::start("ocr", "upload");
    let end = t.finish(0, 0, Some(&AppError::NoFile));
    assert!(!end.release_engine);
    assert_eq!(end.entry.error_message.as_deref(), Some("请上传图片文件"));
}

#[test]
fn previews_of_first_links() {
    let body = b"foobar".to_vec();
    assert_eq!(preview_base64(&body), "Zm9vYmFy");
    assert_eq!(preview_base64(b"f"), "Zg==");
    let plan = plan_ocr_json(&vec![" https://a.com/1.png".to_string(), "http://b.com/2.png".to_string()])
        .ok()
        .unwrap();
    assert_eq!(
        link_preview(&plan, 0, &body),
        Some(base64::engine::general_purpose::STANDARD.encode(&body))
    );
    assert_eq!(link_preview(&plan, 1, &body), None);
    let plan = plan_ocr_json(&vec!["QUJD".to_string(), "http://b.com/2.png".to_string()])
        .ok()
        .unwrap();
    assert_eq!(link_preview(&plan, 0, &body), None);
    assert_eq!(link_preview(&plan, 1, &body), None);
}

#[test]
fn preview_encoding_alphabet() {
    let all: Vec<u8> = (0..=255u8).collect();
    for n in 0..all.len() {
        let body = &all[all.len() - n..];
        let text = preview_base64(body);
        assert_eq!(text, base64::engine::general_purpose::STANDARD.encode(body));
        assert_eq!(text.len(), (n + 2) / 3 * 4);
    }
}
