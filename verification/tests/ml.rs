use backend2::config::Config;
use backend2::ml::backend::remote::RemoteBackend;
use backend2::ml::domain::Status;
use backend2::ml::Backend;
use backend2::util::{accept_part, UploadError};

fn config() -> Config {
    Config::from_vars(None, None, None, None, None, Some("http://sidecar:1".to_string()), Some("32".to_string()))
}

#[test]
fn remote_backend_reports_offline() {
    let b = Backend::new_remote(&config()).unwrap();
    assert_eq!(b.status().unwrap(), Status::Offline);
    assert!(b.models().unwrap().is_empty());
    let Backend::Remote(r) = b;
    assert_eq!(r.base, "http://sidecar:1");
    assert_eq!(r.predict_pad, 32);
}

#[test]
fn remote_backend_from_client() {
    let client = reqwest::Client::new();
    let r = RemoteBackend::from_client(Ok(client), &config()).unwrap();
    assert_eq!(r.base, "http://sidecar:1");
}

#[test]
fn upload_fields() {
    assert_eq!(accept_part("file", false), Ok(()));
    assert_eq!(accept_part("file", true), Err(UploadError::OnlyOneFile));
    let e = accept_part("image", false).unwrap_err();
    assert_eq!(e, UploadError::UnexpectedField("image".to_string()));
    assert_eq!(e.message(), "expected `file` got image");
    assert_eq!(UploadError::OnlyOneFile.message(), "only one file");
}
