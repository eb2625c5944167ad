use wcfrust::media::{after_decrypt, after_download, SaveImageError, SaveImageStep};
use wcfrust::protocol::IpcError;

#[test]
fn download_outcomes() {
    assert!(matches!(after_download(Ok(true), 10), SaveImageStep::Decrypt));
    assert!(matches!(after_download(Ok(true), 0), SaveImageStep::Failed(SaveImageError::TimedOut)));
    assert!(matches!(after_download(Ok(false), 10), SaveImageStep::Failed(SaveImageError::DownloadRefused)));
    assert!(matches!(
        after_download(Err(IpcError::Timeout), 10),
        SaveImageStep::Failed(SaveImageError::Call(IpcError::Timeout))
    ));
}

#[test]
fn decrypt_outcomes() {
    match after_decrypt(Ok("C:/img.jpg".to_string()), 1, 3) {
        SaveImageStep::Saved(p) => assert_eq!(p, "C:/img.jpg"),
        _ => panic!("not saved"),
    }
    assert!(matches!(after_decrypt(Ok(String::new()), 2, 3), SaveImageStep::Wait));
    assert!(matches!(after_decrypt(Ok(String::new()), 3, 3), SaveImageStep::Failed(SaveImageError::TimedOut)));
    assert!(matches!(
        after_decrypt(Err(IpcError::NotConnected), 1, 3),
        SaveImageStep::Failed(SaveImageError::Call(IpcError::NotConnected))
    ));
}
