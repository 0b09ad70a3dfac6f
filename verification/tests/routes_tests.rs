use oar_ocr_web::error::AppError;
use oar_ocr_web::routes::{
    chart_element_indices, check_token, chrono_now, health_response, is_chart_label,
    is_image_field_name, is_supported_mime, log_ocr_request, plan_ocr_json,
    structure_image_origin, total_text_length, validate_mime, StructureEngineState,
};
use oar_ocr_web::types::OcrRequest;

fn token(t: &str) -> Option<String> {
    Some(t.to_string())
}

#[test]
fn supported_mime_types() {
    for m in ["image/jpeg", "image/png", "image/bmp", "image/webp", "image/tiff"] {
        assert!(is_supported_mime(m));
    }
    assert!(!is_supported_mime("image/gif"));
    assert!(!is_supported_mime("IMAGE/PNG"));
    assert!(validate_mime(&None).is_ok());
    assert!(validate_mime(&Some("image/png".to_string())).is_ok());
    match validate_mime(&Some("application/pdf".to_string())) {
        Err(AppError::UnsupportedFormat(f)) => assert_eq!(f, "application/pdf"),
        _ => panic!("expected an unsupported format error"),
    }
}

#[test]
fn token_checks() {
    assert!(check_token(&None, "/api/ocr", None).is_ok());
    assert!(check_token(&token("s3cret"), "/api/health", None).is_ok());
    assert!(matches!(check_token(&token("s3cret"), "/api/ocr", None), Err(AppError::MissingToken)));
    assert!(matches!(
        check_token(&token("s3cret"), "/api/ocr", Some("Basic s3cret")),
        Err(AppError::MissingToken)
    ));
    assert!(matches!(
        check_token(&token("s3cret"), "/api/ocr", Some("Bearer    ")),
        Err(AppError::MissingToken)
    ));
    assert!(matches!(
        check_token(&token("s3cret"), "/api/ocr", Some("Bearer wrong")),
        Err(AppError::InvalidToken)
    ));
    assert!(check_token(&token("s3cret"), "/api/auth/verify", Some("Bearer s3cret")).is_ok());
    assert!(check_token(&token("s3cret"), "/api/ocr", Some("Bearer  s3cret ")).is_ok());
}

#[test]
fn error_statuses_and_messages() {
    assert_eq!(AppError::NoFile.status_code(), 400);
    assert_eq!(AppError::UnsupportedFormat("x".into()).status_code(), 400);
    assert_eq!(AppError::ImageLoad("x".into()).status_code(), 400);
    assert_eq!(AppError::ImageDownload("x".into()).status_code(), 400);
    assert_eq!(AppError::Base64Decode("x".into()).status_code(), 400);
    assert_eq!(AppError::MissingToken.status_code(), 401);
    assert_eq!(AppError::InvalidToken.status_code(), 401);
    assert_eq!(AppError::OcrError("x".into()).status_code(), 500);
    assert_eq!(AppError::StructureError("x".into()).status_code(), 500);
    assert_eq!(AppError::Internal("x".into()).status_code(), 500);
    assert_eq!(AppError::NoFile.client_message(), "请上传图片文件");
    assert_eq!(AppError::UnsupportedFormat("image/gif".into()).client_message(), "不支持的文件格式: image/gif");
    assert_eq!(AppError::ImageLoad("bad".into()).client_message(), "图片加载失败: bad");
    assert_eq!(AppError::OcrError("boom".into()).client_message(), "OCR 识别失败: boom");
    assert_eq!(AppError::Internal("secret detail".into()).client_message(), "服务内部错误");
    assert_eq!(AppError::NoFile.to_display_string(), "no file uploaded");
    assert_eq!(AppError::UnsupportedFormat("image/gif".into()).to_display_string(), "unsupported format: image/gif");
    assert_eq!(AppError::ImageLoad("bad".into()).to_display_string(), "failed to load image: bad");
    assert_eq!(AppError::OcrError("boom".into()).to_display_string(), "OCR error: boom");
    assert_eq!(AppError::Internal("oops".into()).to_display_string(), "internal error: oops");
}

#[test]
fn timestamps() {
    assert_eq!(chrono_now(0), "1970-01-01T00:00:00Z");
    assert_eq!(chrono_now(20627 * 86400 + 12 * 3600 + 34 * 60 + 56), "2026-06-23T12:34:56Z");
    assert_eq!(chrono_now(86399), "1970-01-01T23:59:59Z");
    let ts = chrono_now(1_781_234_567);
    assert!(ts.starts_with(&oar_ocr_web::logger::today_str(1_781_234_567)));
    assert_eq!(ts.len(), 20);
}

#[test]
fn log_entries() {
    let e = log_ocr_request(0, "ocr", "url", Some("https://a/b.png"), 12, 3, 45, 67, "success", None);
    assert_eq!(e.timestamp, "1970-01-01T00:00:00Z");
    assert_eq!(e.request_type, "ocr");
    assert_eq!(e.image_source, "url");
    assert_eq!(e.image_url.as_deref(), Some("https://a/b.png"));
    assert_eq!(e.image_size_bytes, 12);
    assert_eq!(e.result_count, 3);
    assert_eq!(e.total_text_length, 45);
    assert_eq!(e.duration_ms, 67);
    assert_eq!(e.status, "success");
    assert_eq!(e.error_message, None);
    let e = log_ocr_request(1, "structure", "upload", None, 0, 0, 0, 0, "error", Some("bad"));
    assert_eq!(e.error_message.as_deref(), Some("bad"));
    assert_eq!(e.image_url, None);
}

#[test]
fn upload_field_names() {
    assert!(is_image_field_name(Some("file")));
    assert!(is_image_field_name(Some("image")));
    assert!(is_image_field_name(Some("image_data")));
    assert!(!is_image_field_name(Some("files")));
    assert!(!is_image_field_name(None));
}

#[test]
fn text_length_totals() {
    assert_eq!(total_text_length(&vec![]), Some(0));
    assert_eq!(total_text_length(&vec!["ab".to_string(), "图片".to_string()]), Some(8));
}

#[test]
fn json_ocr_plans() {
    let req = OcrRequest { images: vec![] };
    assert!(matches!(plan_ocr_json(&req.images), Err(AppError::NoFile)));
    let images = vec![
        "  ".to_string(),
        " https://a.com/1.jpg ".to_string(),
        "data:image/png;base64,AAAA".to_string(),
        "http://b.com/2.png".to_string(),
        "QUJD".to_string(),
    ];
    let plan = plan_ocr_json(&images).ok().unwrap();
    assert_eq!(
        plan.sources,
        vec!["https://a.com/1.jpg", "data:image/png;base64,AAAA", "http://b.com/2.png", "QUJD"]
    );
    assert_eq!(plan.image_source, "url");
    assert_eq!(plan.image_url.as_deref(), Some("http://b.com/2.png"));
    let plan = plan_ocr_json(&vec!["QUJD".to_string(), "\t".to_string()]).ok().unwrap();
    assert_eq!(plan.sources, vec!["QUJD"]);
    assert_eq!(plan.image_source, "base64");
    assert_eq!(plan.image_url, None);
    let plan = plan_ocr_json(&vec![" ".to_string()]).ok().unwrap();
    assert!(plan.sources.is_empty());
}

#[test]
fn structure_origins() {
    let (label, url) = structure_image_origin("https://a.com/x.png");
    assert_eq!(label, "url");
    assert_eq!(url.as_deref(), Some("https://a.com/x.png"));
    let (label, url) = structure_image_origin(" https://a.com/x.png");
    assert_eq!(label, "base64");
    assert_eq!(url, None);
}

#[test]
fn chart_selection() {
    assert!(is_chart_label(&Some("chart".to_string())));
    assert!(is_chart_label(&Some("flowchart".to_string())));
    assert!(!is_chart_label(&Some("table".to_string())));
    assert!(!is_chart_label(&None));
    let labels = vec![
        Some("text".to_string()),
        Some("chart".to_string()),
        None,
        Some("figure_title".to_string()),
        Some("chart_title".to_string()),
    ];
    assert_eq!(chart_element_indices(&labels), vec![1, 3, 4]);
}

#[test]
fn health_reports() {
    let h = health_response("0.1.4", 3600, StructureEngineState::NotLoaded, true);
    assert_eq!(h.status, "ok");
    assert_eq!(h.version, "0.1.4");
    assert_eq!(h.uptime_secs, 3600);
    assert_eq!(h.engines.ocr.status, "ready");
    assert_eq!(h.engines.ocr.model, "PP-OCRv6 small");
    assert_eq!(h.engines.structure.status, "not_loaded");
    assert_eq!(h.engines.structure.model, "PP-DocLayout_plus-L + SLANet_plus + PP-FormulaNet_plus-S");
    assert_eq!(h.engines.auth_enabled, Some(true));
    assert_eq!(health_response("v", 0, StructureEngineState::Loaded, false).engines.structure.status, "loaded");
    assert_eq!(health_response("v", 0, StructureEngineState::Busy, false).engines.structure.status, "busy");
}

#[test]
fn timestamp_shape() {
    for secs in [0u64, 59, 3599, 86399, 951_782_400, 1_781_234_567, 253_402_300_799] {
        let t = chrono_now(secs);
        assert_eq!(t.len(), 20);
        assert_eq!(&t[..10], oar_ocr_web::logger::today_str(secs));
        assert_eq!(&t[10..11], "T");
        assert_eq!(&t[13..14], ":");
        assert_eq!(&t[16..17], ":");
        assert!(t.ends_with('Z'));
        assert!(&t[11..13] < "24" && &t[14..16] < "60" && &t[17..19] < "60");
    }
}
