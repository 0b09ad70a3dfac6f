//! Errors of the web layer, with the HTTP status and the message each one is
//! answered with.
use vstd::prelude::*;

verus! {

/// Errors of the web layer.
pub enum AppError {
    /// No image file was uploaded.
    NoFile,
    /// The uploaded file has an unsupported MIME type.
    UnsupportedFormat(String),
    /// The image bytes could not be decoded.
    ImageLoad(String),
    /// Downloading an image from a URL failed.
    ImageDownload(String),
    /// A base64 image payload could not be decoded.
    Base64Decode(String),
    /// A token is configured but the request carries none.
    MissingToken,
    /// The request carries a token other than the configured one.
    InvalidToken,
    /// Text recognition failed.
    OcrError(String),
    /// Structure recognition failed.
    StructureError(String),
    /// Internal service error.
    Internal(String),
}

/// HTTP status code 400 Bad Request.
pub const BAD_REQUEST: u16 = 400;

/// HTTP status code 401 Unauthorized.
pub const UNAUTHORIZED: u16 = 401;

/// HTTP status code 500 Internal Server Error.
pub const INTERNAL_SERVER_ERROR: u16 = 500;

impl AppError {
    /// The HTTP status an error is answered with: bad requests (no file, unsupported
    /// format, images that cannot be downloaded, decoded or loaded) get 400, missing
    /// or invalid tokens 401, failures of the service 500.
    pub open spec fn status_of(&self) -> u16 {
        match self {
            AppError::NoFile => 400,
            AppError::UnsupportedFormat(_) => 400,
            AppError::ImageLoad(_) => 400,
            AppError::ImageDownload(_) => 400,
            AppError::Base64Decode(_) => 400,
            AppError::MissingToken => 401,
            AppError::InvalidToken => 401,
            AppError::OcrError(_) => 500,
            AppError::StructureError(_) => 500,
            AppError::Internal(_) => 500,
        }
    }

    /// The message shown to the client; internal errors hide their details.
    pub open spec fn client_message_of(&self) -> Seq<char> {
        match self {
            AppError::NoFile => "请上传图片文件"@,
            AppError::UnsupportedFormat(f) => "不支持的文件格式: "@ + f@,
            AppError::ImageLoad(msg) => "图片加载失败: "@ + msg@,
            AppError::ImageDownload(msg) => "图片下载失败: "@ + msg@,
            AppError::Base64Decode(msg) => "Base64 解码失败: "@ + msg@,
            AppError::MissingToken => "缺少认证 Token"@,
            AppError::InvalidToken => "认证 Token 无效"@,
            AppError::OcrError(msg) => "OCR 识别失败: "@ + msg@,
            AppError::StructureError(msg) => "结构识别失败: "@ + msg@,
            AppError::Internal(_) => "服务内部错误"@,
        }
    }

    /// The text of the error for logs and diagnostics.
    pub open spec fn display_of(&self) -> Seq<char> {
        match self {
            AppError::NoFile => "no file uploaded"@,
            AppError::UnsupportedFormat(f) => "unsupported format: "@ + f@,
            AppError::ImageLoad(msg) => "failed to load image: "@ + msg@,
            AppError::ImageDownload(msg) => "failed to download image: "@ + msg@,
            AppError::Base64Decode(msg) => "failed to decode base64: "@ + msg@,
            AppError::MissingToken => "missing token"@,
            AppError::InvalidToken => "invalid token"@,
            AppError::OcrError(msg) => "OCR error: "@ + msg@,
            AppError::StructureError(msg) => "structure error: "@ + msg@,
            AppError::Internal(msg) => "internal error: "@ + msg@,
        }
    }

    /// The HTTP status code of this error.
    pub fn status_code(&self) -> (code: u16)
        ensures
            code == self.status_of(),
    {
        match self {
            AppError::NoFile => BAD_REQUEST,
            AppError::UnsupportedFormat(_) => BAD_REQUEST,
            AppError::ImageLoad(_) => BAD_REQUEST,
            AppError::ImageDownload(_) => BAD_REQUEST,
            AppError::Base64Decode(_) => BAD_REQUEST,
            AppError::MissingToken => UNAUTHORIZED,
            AppError::InvalidToken => UNAUTHORIZED,
            AppError::OcrError(_) => INTERNAL_SERVER_ERROR,
            AppError::StructureError(_) => INTERNAL_SERVER_ERROR,
            AppError::Internal(_) => INTERNAL_SERVER_ERROR,
        }
    }

    /// The message of the error response sent to the client.
    pub fn client_message(&self) -> (msg: String)
        ensures
            msg@ == self.client_message_of(),
    {
        match self {
            AppError::NoFile => String::from_str("请上传图片文件"),
            AppError::UnsupportedFormat(f) => String::from_str("不支持的文件格式: ").concat(f.as_str()),
            AppError::ImageLoad(msg) => String::from_str("图片加载失败: ").concat(msg.as_str()),
            AppError::ImageDownload(msg) => String::from_str("图片下载失败: ").concat(msg.as_str()),
            AppError::Base64Decode(msg) => String::from_str("Base64 解码失败: ").concat(msg.as_str()),
            AppError::MissingToken => String::from_str("缺少认证 Token"),
            AppError::InvalidToken => String::from_str("认证 Token 无效"),
            AppError::OcrError(msg) => String::from_str("OCR 识别失败: ").concat(msg.as_str()),
            AppError::StructureError(msg) => String::from_str("结构识别失败: ").concat(msg.as_str()),
            AppError::Internal(_) => String::from_str("服务内部错误"),
        }
    }

    /// The text of the error, as its `Display` would write it.
    pub fn to_display_string(&self) -> (text: String)
        ensures
            text@ == self.display_of(),
    {
        match self {
            AppError::NoFile => String::from_str("no file uploaded"),
            AppError::UnsupportedFormat(f) => String::from_str("unsupported format: ").concat(f.as_str()),
            AppError::ImageLoad(msg) => String::from_str("failed to load image: ").concat(msg.as_str()),
            AppError::ImageDownload(msg) => String::from_str("failed to download image: ").concat(
                msg.as_str(),
            ),
            AppError::Base64Decode(msg) => String::from_str("failed to decode base64: ").concat(
                msg.as_str(),
            ),
            AppError::MissingToken => String::from_str("missing token"),
            AppError::InvalidToken => String::from_str("invalid token"),
            AppError::OcrError(msg) => String::from_str("OCR error: ").concat(msg.as_str()),
            AppError::StructureError(msg) => String::from_str("structure error: ").concat(msg.as_str()),
            AppError::Internal(msg) => String::from_str("internal error: ").concat(msg.as_str()),
        }
    }
}

} // verus!
