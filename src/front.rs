use vstd::prelude::*;
use crate::error::UploadError;

verus! {

/// How an upload request asks for its object to be sent.
#[derive(Clone, Copy, Debug, PartialEq, Eq, Structural)]
pub enum UploadOption {
    /// Split into parts and sent as a multipart session.
    Multipart,
    /// Sent in one request.
    SingleShot,
}

/// The upload option a request's `option` segment names: `multi` or
/// `default`; any other text names none.
pub fn upload_option(option: &String) -> (r: Option<UploadOption>)
    ensures
        option@ == "multi"@ ==> r == Some(UploadOption::Multipart),
        option@ == "default"@ ==> r == Some(UploadOption::SingleShot),
        option@ != "multi"@ && option@ != "default"@ ==> r is None,
{
    proof {
        reveal_strlit("multi");
        reveal_strlit("default");
        assert("multi"@[0] != "default"@[0]);
    }
    let multi = "multi".to_owned();
    let single = "default".to_owned();
    if *option == multi {
        Some(UploadOption::Multipart)
    } else if *option == single {
        Some(UploadOption::SingleShot)
    } else {
        None
    }
}

/// The HTTP status that reports the outcome of a transfer: 200 on success,
/// 400 on any failure.
pub fn transfer_status(outcome: &Result<(), UploadError>) -> (r: u16)
    ensures
        outcome is Ok ==> r == 200,
        outcome is Err ==> r == 400,
{
    match outcome {
        Ok(()) => 200,
        Err(_) => 400,
    }
}

} // verus!
