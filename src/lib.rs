//! Session control core of a BitTorrent daemon: the torrent table, the
//! peer index, the periodic job schedule, the server counters and the
//! decisions that the event loop takes on each event.
pub mod control;
pub mod hexid;
pub mod jobs;
pub mod server;
pub mod table;
