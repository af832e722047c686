use vstd::prelude::*;

verus! {

/// One captured key press: which key, and when (milliseconds since the epoch).
#[derive(Debug)]
pub struct KeyEvent {
    pub key_name: String,
    pub timestamp: i64,
}

impl KeyEvent {
    pub fn new(key_name: String, timestamp: i64) -> (r: KeyEvent)
        ensures
            r.key_name == key_name,
            r.timestamp == timestamp,
    {
        KeyEvent { key_name, timestamp }
    }
}

} // verus!
