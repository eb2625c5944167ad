//! Saving a received image: download the attachment, then ask for the
//! decrypted file until it appears or the time allowed runs out.

use vstd::prelude::*;
use crate::protocol::IpcError;

verus! {

/// A message id, as a query parameter.
pub struct Id {
    pub id: u64,
}

/// A request to save the image of a received message.
pub struct Image {
    /// The message's id.
    pub id: u64,
    /// The message's `extra` field: where the encrypted image lies.
    pub extra: String,
    /// The directory to save into.
    pub dir: String,
    /// Seconds to wait for the decrypted file.
    pub timeout: u8,
}

/// Why an image was not saved.
#[derive(Clone, Copy, Debug, PartialEq, Eq, Structural)]
pub enum SaveImageError {
    /// The agent would not download the attachment.
    DownloadRefused,
    /// The decrypted file did not appear in time.
    TimedOut,
    /// A call failed.
    Call(IpcError),
}

/// What saving an image does next.
pub enum SaveImageStep {
    /// Ask for the decrypted file.
    Decrypt,
    /// Wait a second, then ask again.
    Wait,
    /// Saved at this path.
    Saved(String),
    /// Not saved.
    Failed(SaveImageError),
}

/// The step after the download request: attempts begin only when the
/// download was accepted and some time is allowed.
pub fn after_download(downloaded: Result<bool, IpcError>, timeout: u8) -> (r: SaveImageStep)
    ensures
        match downloaded {
            Ok(true) => if timeout > 0 {
                r is Decrypt
            } else {
                r matches SaveImageStep::Failed(SaveImageError::TimedOut)
            },
            Ok(false) => r matches SaveImageStep::Failed(SaveImageError::DownloadRefused),
            Err(e) => r matches SaveImageStep::Failed(SaveImageError::Call(x)) && x == e,
        },
{
    match downloaded {
        Ok(true) => if timeout > 0 {
            SaveImageStep::Decrypt
        } else {
            SaveImageStep::Failed(SaveImageError::TimedOut)
        },
        Ok(false) => SaveImageStep::Failed(SaveImageError::DownloadRefused),
        Err(e) => SaveImageStep::Failed(SaveImageError::Call(e)),
    }
}

/// The step after a decrypt attempt, `attempts` of them made so far: an
/// empty path means the file is not there yet, and another attempt follows
/// while fewer than `timeout` have failed.
pub fn after_decrypt(decrypted: Result<String, IpcError>, attempts: u8, timeout: u8) -> (r: SaveImageStep)
    requires
        1 <= attempts <= timeout,
    ensures
        match decrypted {
            Ok(p) => if p@.len() > 0 {
                r matches SaveImageStep::Saved(q) && q@ == p@
            } else if attempts < timeout {
                r is Wait
            } else {
                r matches SaveImageStep::Failed(SaveImageError::TimedOut)
            },
            Err(e) => r matches SaveImageStep::Failed(SaveImageError::Call(x)) && x == e,
        },
{
    match decrypted {
        Ok(p) => {
            if !p.as_str().is_empty() {
                SaveImageStep::Saved(p)
            } else if attempts < timeout {
                SaveImageStep::Wait
            } else {
                SaveImageStep::Failed(SaveImageError::TimedOut)
            }
        },
        Err(e) => SaveImageStep::Failed(SaveImageError::Call(e)),
    }
}

} // verus!
