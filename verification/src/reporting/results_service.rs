//! Uploading logs.

use vstd::prelude::*;

verus! {

/// The storage type of Azure blobs.
pub const BLOB_STORAGE_AZURE: &'static str = "BLOB_STORAGE_TYPE_AZURE";

/// The headers of a log upload.
#[derive(Debug)]
pub struct LogBlobHeaders {
    pub content_type: &'static str,
    pub content_encoding: Option<&'static str>,
}

/// The headers of a log upload.
pub fn log_blob_headers(compressed: bool) -> (r: LogBlobHeaders)
    ensures
        r.content_type@ == if compressed {
            "application/gzip"@
        } else {
            "text/plain"@
        },
        match r.content_encoding {
            Some(e) => compressed && e@ == "gzip"@,
            None => !compressed,
        },
{
    if compressed {
        LogBlobHeaders { content_type: "application/gzip", content_encoding: Some("gzip") }
    } else {
        LogBlobHeaders { content_type: "text/plain", content_encoding: None }
    }
}

/// A log is announced as gzip exactly when it is compressed.
pub proof fn law_compressed_log_is_gzip(compressed: bool, r: LogBlobHeaders)
    requires
        call_ensures(log_blob_headers, (compressed,), r),
    ensures
        compressed ==> r.content_type@ == "application/gzip"@,
        !compressed ==> r.content_type@ == "text/plain"@,
        r.content_encoding is Some <==> compressed,
        r.content_encoding matches Some(e) ==> e@ == "gzip"@,
{
}

} // verus!
