//! The fetch of the dataset: where it is published, where it is kept, and
//! what is done with the server's answer.
//!
//! The request itself and the writing of the file are the caller's. The
//! decision between the two ways a completed request can end is made here.

use vstd::prelude::*;

verus! {

/// Where the dataset is published.
pub const DATASET_URL: &'static str =
    "https://api.nationalgrideso.com/dataset/88313ae5-94e4-4ddc-a790-593554d8c6b9/resource/f93d1835-75bc-43e5-84ad-12472b180a98/download/df_fuel_ckan.csv";

/// Name of the file that the dataset is saved to, and loaded from.
pub const FILE_NAME: &'static str = "GB_Generation_Mix.csv";

/// Directory that the file is saved in.
pub const DOWNLOAD_DIRECTORY: &'static str = "src";

/// Name of the database file that holds the destination table.
pub const DATABASE_FILE: &'static str = "generation-mix-national.db";

/// What the spinner shows while the dataset is fetched.
pub const DOWNLOADING_MESSAGE: &'static str = "Downloading generation mix csv...";

/// What the spinner shows once the fetch is over.
pub const DOWNLOADED_MESSAGE: &'static str = "Generation mix csv downloaded";

/// What to do once the server has answered.
#[derive(Debug, Clone, Copy, PartialEq, Eq, Structural)]
pub enum FetchStep {
    /// Write the body to the file, replacing a file that is there.
    SaveBody,
    /// Report the status and write nothing. The fetch still ends without an
    /// error, so a load that follows may find no file.
    ReportStatus { status: u16 },
}

/// Whether an HTTP status stands for success: the codes from 200 to 299.
pub open spec fn is_success_status(status: u16) -> bool {
    200 <= status < 300
}

/// Tells whether an HTTP status stands for success.
pub fn is_success(status: u16) -> (success: bool)
    ensures
        success == is_success_status(status),
{
    200 <= status && status < 300
}

/// Decides what becomes of the server's answer: the body of a successful
/// answer is saved, any other answer is reported by its status.
pub fn after_response(status: u16) -> (step: FetchStep)
    ensures
        is_success_status(status) ==> step == FetchStep::SaveBody,
        !is_success_status(status) ==> step == (FetchStep::ReportStatus { status }),
{
    if is_success(status) {
        FetchStep::SaveBody
    } else {
        FetchStep::ReportStatus { status }
    }
}

} // verus!
