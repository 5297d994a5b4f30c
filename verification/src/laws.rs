//! What the library promises of its operations, each promise stated over the values
//! it is about: what goes in, and what comes out.
pub mod acts;
pub mod backends;
pub mod beginnings;
pub mod children;
pub mod choices;
pub mod deletes;
pub mod devices;
pub mod dialogs;
pub mod disks;
pub mod edits;
pub mod endings;
pub mod faults;
pub mod frames;
pub mod hosts;
pub mod installs;
pub mod launches;
pub mod measures;
pub mod places;
pub mod samples;
pub mod scans;
pub mod sessions;
pub mod sizes;
pub mod starts;
pub mod updates;
pub mod views;
pub mod wizard;
pub mod words;
