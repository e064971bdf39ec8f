use ghactions::archives::archive_format;
use ghactions::{ArchiveFormat, ToolCacheError};

#[test]
fn archive_dispatch_by_extension() {
    assert_eq!(archive_format("tool.zip").unwrap(), ArchiveFormat::Zip);
    assert_eq!(archive_format("tool.tar.gz").unwrap(), ArchiveFormat::TarGz);
    assert_eq!(archive_format("tool.tgz").unwrap(), ArchiveFormat::TarGz);
    assert_eq!(archive_format("tool.tar").unwrap(), ArchiveFormat::Tar);
}

#[test]
fn archive_dispatch_uses_last_segment() {
    assert_eq!(
        archive_format("downloads/v1.2/tool.zip").unwrap(),
        ArchiveFormat::Zip
    );
    let err = archive_format("downloads.tar/tool").unwrap_err();
    assert!(matches!(err, ToolCacheError::InvalidInput(_)));
}

#[test]
fn archive_unknown_extension_is_invalid_input() {
    let err = archive_format("tool.txt").unwrap_err();
    assert!(matches!(err, ToolCacheError::InvalidInput(_)));
}

#[test]
fn archive_missing_extension_is_invalid_input() {
    let err = archive_format("tool").unwrap_err();
    assert!(matches!(err, ToolCacheError::InvalidInput(_)));
    let err = archive_format("").unwrap_err();
    assert!(matches!(err, ToolCacheError::InvalidInput(_)));
}

#[test]
fn archive_hidden_file_has_no_extension() {
    let err = archive_format(".gz").unwrap_err();
    assert!(matches!(err, ToolCacheError::InvalidInput(_)));
}
