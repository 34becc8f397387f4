//! PixoFold core: static PNG inspection, lossless/lossy candidate preparation,
//! batch bookkeeping and import planning, and the desktop application's task
//! coordination, native selection slot, change notices, mutation admission
//! and snapshot queries as state machines and pure functions. The file-system,
//! thread and transport work is left to the embedding application.

pub mod batch;
pub mod codecs;
pub mod import;
pub mod ingress;
pub mod model;
pub mod mutation;
pub mod paths;
pub mod pipeline;
pub mod pngcodec;
pub mod probe;
pub mod quality;
pub mod query;
pub mod subscriptions;
pub mod tasks;
pub mod wire;

use vstd::prelude::*;
use vstd::string::*;

verus! {

/// The package version of this build.
pub const VERSION: &'static str = "0.1.0";

/// The application's name, version and planned formats; no format is claimed
/// as compressible in the front-end contract.
pub fn app_info() -> (r: model::AppInfo)
    ensures
        r.planned_formats@ == seq![
            model::ImageFormat::Png,
            model::ImageFormat::Jpeg,
            model::ImageFormat::Gif,
            model::ImageFormat::Apng,
        ],
        !r.compression_available,
        r.name@ == "PixoFold"@,
        r.version@ == VERSION@,
{
    let mut formats: Vec<model::ImageFormat> = Vec::new();
    formats.push(model::ImageFormat::Png);
    formats.push(model::ImageFormat::Jpeg);
    formats.push(model::ImageFormat::Gif);
    formats.push(model::ImageFormat::Apng);
    model::AppInfo {
        name: String::from_str("PixoFold"),
        version: String::from_str(VERSION),
        planned_formats: formats,
        compression_available: false,
    }
}

} // verus!
