use vstd::prelude::*;

verus! {

/// The decimal digit for `d` (below ten).
pub open spec fn digit_char(d: nat) -> char {
    (d + 48) as char
}

/// The decimal representation of `n`, without leading zeros.
pub open spec fn decimal_spec(n: nat) -> Seq<char>
    decreases n,
{
    if n < 10 {
        seq![digit_char(n)]
    } else {
        decimal_spec(n / 10).push(digit_char(n % 10))
    }
}

/// `x` written in decimal, by `u64`'s `Display` (through `to_string`),
/// which writes the digits of `x` without sign or leading zeros.
#[verifier::external_body]
fn decimal_string(x: u64) -> (s: String)
    ensures
        s@ == decimal_spec(x as nat),
{
    x.to_string()
}

/// The whole seconds since 1970-01-01 00:00:00 UTC by the system clock:
/// `SystemTime::now().duration_since(UNIX_EPOCH)`, `None` when the clock
/// reads earlier. What it returns depends on the clock, so nothing is
/// stated of it.
#[verifier::external_body]
fn unix_seconds() -> (r: Option<u64>) {
    match std::time::SystemTime::now().duration_since(std::time::UNIX_EPOCH) {
        Ok(d) => Some(d.as_secs()),
        Err(_) => None,
    }
}

/// The UTC time `secs` seconds after 1970-01-01 00:00:00 written as
/// `YYYYmmdd_HHMMSS`, or nothing when chrono cannot represent that time.
pub uninterp spec fn utc_stamp(secs: i64) -> Option<Seq<char>>;

/// chrono's `DateTime::from_timestamp(secs, 0)`, formatted with
/// `format("%Y%m%d_%H%M%S")`; `None` when `from_timestamp` is `None` (the
/// time is out of chrono's range). The text is a function of `secs` alone.
#[verifier::external_body]
fn utc_stamp_text(secs: i64) -> (r: Option<String>)
    ensures
        r is Some == utc_stamp(secs) is Some,
        r matches Some(s) ==> s@ == utc_stamp(secs)->Some_0,
{
    match chrono::DateTime::from_timestamp(secs, 0) {
        Some(t) => Some(t.format("%Y%m%d_%H%M%S").to_string()),
        None => None,
    }
}

/// The name of a recording file.
pub open spec fn recording_file_name_spec(channels: u16, sample_rate: u32, timestamp: Seq<char>) -> Seq<char> {
    "recording_"@ + decimal_spec(channels as nat) + "ch_"@ + decimal_spec(sample_rate as nat)
        + "hz_"@ + timestamp + ".flac"@
}

/// What a recorder is: where it writes, whether it records, and the format.
pub struct RecorderView {
    pub output_dir: Seq<char>,
    pub is_recording: bool,
    pub sample_rate: u32,
    pub bit_depth: u32,
    pub channels: u16,
}

/// The state of a recorder. Opening files and keeping the samples are done
/// by the caller; this decides when recording starts and stops.
#[derive(Debug)]
pub struct AudioRecorder {
    output_dir: String,
    is_recording: bool,
    sample_rate: u32,
    bit_depth: u32,
    channels: u16,
}

impl View for AudioRecorder {
    type V = RecorderView;

    closed spec fn view(&self) -> RecorderView {
        RecorderView {
            output_dir: self.output_dir@,
            is_recording: self.is_recording,
            sample_rate: self.sample_rate,
            bit_depth: self.bit_depth,
            channels: self.channels,
        }
    }
}

impl AudioRecorder {
    /// A recorder writing to `output_dir`, not recording.
    pub fn new(output_dir: String, sample_rate: u32, bit_depth: u32, channels: u16) -> (r: AudioRecorder)
        ensures
            r@.output_dir == output_dir@,
            !r@.is_recording,
            r@.sample_rate == sample_rate,
            r@.bit_depth == bit_depth,
            r@.channels == channels,
    {
        AudioRecorder { output_dir, is_recording: false, sample_rate, bit_depth, channels }
    }

    /// Starts recording. A recorder that already records refuses (`false`)
    /// and stays as it is; otherwise it records from now on exactly when the
    /// caller could open the file (`file_opened`), and says so.
    pub fn start_recording(&mut self, file_opened: bool) -> (started: bool)
        ensures
            started == (!old(self)@.is_recording && file_opened),
            final(self)@.is_recording == (old(self)@.is_recording || file_opened),
            final(self)@.output_dir == old(self)@.output_dir,
            final(self)@.sample_rate == old(self)@.sample_rate,
            final(self)@.bit_depth == old(self)@.bit_depth,
            final(self)@.channels == old(self)@.channels,
    {
        if self.is_recording {
            return false;
        }
        if file_opened {
            self.is_recording = true;
            true
        } else {
            false
        }
    }

    /// Stops recording; `false` when it was not recording.
    pub fn stop_recording(&mut self) -> (stopped: bool)
        ensures
            stopped == old(self)@.is_recording,
            !final(self)@.is_recording,
            final(self)@.output_dir == old(self)@.output_dir,
            final(self)@.sample_rate == old(self)@.sample_rate,
            final(self)@.bit_depth == old(self)@.bit_depth,
            final(self)@.channels == old(self)@.channels,
    {
        if !self.is_recording {
            return false;
        }
        self.is_recording = false;
        true
    }

    pub fn is_recording(&self) -> (r: bool)
        ensures
            r == self@.is_recording,
    {
        self.is_recording
    }

    pub fn get_output_dir(&self) -> (d: String)
        ensures
            d@ == self@.output_dir,
    {
        self.output_dir.clone()
    }

    /// The file name of a recording started at `timestamp`:
    /// `recording_<channels>ch_<sample rate>hz_<timestamp>.flac`.
    pub fn file_name(&self, timestamp: &str) -> (name: String)
        ensures
            name@ == recording_file_name_spec(self@.channels, self@.sample_rate, timestamp@),
    {
        let mut s = String::from_str("recording_");
        let ch = decimal_string(self.channels as u64);
        s.append(ch.as_str());
        s.append("ch_");
        let sr = decimal_string(self.sample_rate as u64);
        s.append(sr.as_str());
        s.append("hz_");
        s.append(timestamp);
        s.append(".flac");
        s
    }

    /// The file name of a recording started `secs` seconds after
    /// 1970-01-01 00:00:00 UTC (see [`Self::file_name`]), or nothing when
    /// that time cannot be written.
    pub fn file_name_at(&self, secs: u64) -> (name: Option<String>)
        ensures
            secs > i64::MAX ==> name is None,
            secs <= i64::MAX ==> (name is Some == utc_stamp(secs as i64) is Some),
            name matches Some(n) ==> n@ == recording_file_name_spec(
                self@.channels,
                self@.sample_rate,
                utc_stamp(secs as i64)->Some_0,
            ),
    {
        if secs > i64::MAX as u64 {
            return None;
        }
        match utc_stamp_text(secs as i64) {
            Some(ts) => Some(self.file_name(ts.as_str())),
            None => None,
        }
    }

    /// The file name of a recording started now, by the system clock (see
    /// [`Self::file_name_at`]); nothing when the clock reads before 1970 or
    /// the time cannot be written.
    pub fn next_file_name(&self) -> (name: Option<String>)
        ensures
            name matches Some(n) ==> exists|secs: u64|
                secs <= i64::MAX && #[trigger] utc_stamp(secs as i64) is Some && n@
                    == recording_file_name_spec(
                    self@.channels,
                    self@.sample_rate,
                    utc_stamp(secs as i64)->Some_0,
                ),
    {
        match unix_seconds() {
            Some(secs) => self.file_name_at(secs),
            None => None,
        }
    }
}

} // verus!
