//! Writing a channel's frames out as a numbered sequence of image files.

use vstd::prelude::*;
use vstd::string::StringExecFns;
use crate::pixels::{blank, PixelBuffer};

verus! {

/// The extension of the files of a sequence whose format was not chosen.
pub const DEFAULT_EXTENSION: &'static str = "png";

/// The character of a decimal digit.
pub open spec fn digit_char(digit: nat) -> char {
    seq!['0', '1', '2', '3', '4', '5', '6', '7', '8', '9'][digit as int]
}

/// `n` in decimal, without leading zeros.
pub open spec fn decimal(n: nat) -> Seq<char>
    decreases n,
{
    if n < 10 {
        seq![digit_char(n)]
    } else {
        decimal(n / 10).push(digit_char(n % 10))
    }
}

/// `n` in decimal, with zeros in front where it has fewer than `width`
/// digits.
pub open spec fn zero_padded(n: nat, width: nat) -> Seq<char> {
    let digits = decimal(n);
    if digits.len() >= width {
        digits
    } else {
        Seq::new((width - digits.len()) as nat, |i: int| '0') + digits
    }
}

/// The path of the file of frame `frame_id` in directory `dir`: the
/// directory, a slash, the frame id in at least six digits, a dot and the
/// extension.
pub open spec fn frame_path(dir: Seq<char>, frame_id: u64, extension: Seq<char>) -> Seq<char> {
    dir + seq!['/'] + zero_padded(frame_id as nat, 6) + seq!['.'] + extension
}

/// The one-character string of a decimal digit.
fn digit_str(digit: u64) -> (s: &'static str)
    requires
        digit < 10,
    ensures
        s@ == seq![digit_char(digit as nat)],
{
    proof {
        reveal_strlit("0");
        reveal_strlit("1");
        reveal_strlit("2");
        reveal_strlit("3");
        reveal_strlit("4");
        reveal_strlit("5");
        reveal_strlit("6");
        reveal_strlit("7");
        reveal_strlit("8");
        reveal_strlit("9");
    }
    let s = if digit == 0 {
        "0"
    } else if digit == 1 {
        "1"
    } else if digit == 2 {
        "2"
    } else if digit == 3 {
        "3"
    } else if digit == 4 {
        "4"
    } else if digit == 5 {
        "5"
    } else if digit == 6 {
        "6"
    } else if digit == 7 {
        "7"
    } else if digit == 8 {
        "8"
    } else {
        "9"
    };
    assert(s@ =~= seq![digit_char(digit as nat)]);
    s
}

/// The number of decimal digits of `n`.
fn decimal_len(n: u64) -> (len: usize)
    ensures
        len == decimal(n as nat).len(),
        1 <= len <= 20,
    decreases n,
{
    if n < 10 {
        1
    } else {
        let shorter = decimal_len(n / 10);
        proof {
            lemma_decimal_len((n / 10) as nat);
        }
        shorter + 1
    }
}

/// A tenth of a `u64` has at most 19 digits.
proof fn lemma_decimal_len(n: nat)
    ensures
        decimal(n).len() >= 1,
        n <= u64::MAX / 10 ==> decimal(n).len() <= 19,
{
    reveal_with_fuel(decimal, 20);
}

/// Writes `n` in decimal behind what `out` holds.
fn push_decimal(out: &mut String, n: u64)
    ensures
        final(out)@ == old(out)@ + decimal(n as nat),
    decreases n,
{
    if n >= 10 {
        push_decimal(out, n / 10);
    }
    out.append(digit_str(n % 10));
    assert(out@ =~= old(out)@ + decimal(n as nat));
}

/// Writes `n` in decimal behind what `out` holds, with zeros in front where
/// it has fewer than `width` digits.
fn push_zero_padded(out: &mut String, n: u64, width: usize)
    ensures
        final(out)@ == old(out)@ + zero_padded(n as nat, width as nat),
{
    let digits: usize = decimal_len(n);
    let mut written: usize = digits;
    proof {
        reveal_strlit("0");
        assert(out@ =~= old(out)@ + Seq::new(0, |i: int| '0'));
    }
    while written < width
        invariant
            digits <= written,
            written <= width || written == digits,
            out@ == old(out)@ + Seq::new((written - digits) as nat, |i: int| '0'),
        decreases width - written,
    {
        out.append("0");
        proof {
            reveal_strlit("0");
            assert(out@ =~= old(out)@ + Seq::new((written + 1 - digits) as nat, |i: int| '0'));
        }
        written = written + 1;
    }
    push_decimal(out, n);
    assert(out@ =~= old(out)@ + zero_padded(n as nat, width as nat));
}

/// The path of the file of frame `frame_id` in directory `dir`.
fn format_frame_path(dir: &str, frame_id: u64, extension: &str) -> (path: String)
    ensures
        path@ == frame_path(dir@, frame_id, extension@),
{
    let mut path = dir.to_owned();
    path.append("/");
    push_zero_padded(&mut path, frame_id, 6);
    path.append(".");
    path.append(extension);
    proof {
        reveal_strlit("/");
        reveal_strlit(".");
        assert(path@ =~= frame_path(dir@, frame_id, extension@));
    }
    path
}

/// The image that was captured last, with the extension of the file that
/// it is to be written to.
pub struct CurrImage {
    pub img_buffer: PixelBuffer,
    pub frame_id: u64,
    pub extension: String,
}

impl Default for CurrImage {
    fn default() -> (image: Self)
        ensures
            image.img_buffer@ == blank(0, 0),
            image.frame_id == 0,
            image.extension@ == Seq::<char>::empty(),
    {
        CurrImage { img_buffer: PixelBuffer::new(0, 0), frame_id: 0, extension: String::new() }
    }
}

impl CurrImage {
    /// Takes over a copy of `image_bytes` as the image of frame `frame_id`.
    pub fn update_data(&mut self, frame_id: u64, image_bytes: &PixelBuffer, extension: String)
        ensures
            final(self).frame_id == frame_id,
            final(self).extension == extension,
            final(self).img_buffer@ == image_bytes@,
    {
        self.frame_id = frame_id;
        self.extension = extension;
        self.img_buffer = image_bytes.clone();
    }

    /// The path of this frame's file in directory `dir`.
    pub fn create_path(&self, dir: &str) -> (path: String)
        ensures
            path@ == frame_path(dir@, self.frame_id, self.extension@),
    {
        format_frame_path(dir, self.frame_id, self.extension.as_str())
    }

    /// The width and the height of the image.
    pub fn dimensions(&self) -> (size: [u32; 2])
        ensures
            size[0] == self.img_buffer@.width,
            size[1] == self.img_buffer@.height,
    {
        let (w, h) = self.img_buffer.dimensions();
        [w, h]
    }

    /// The aspect ratio that the image is shown in: always 16 to 9.
    pub fn aspect_ratio(&self) -> (ratio: [u32; 2])
        ensures
            ratio[0] == 16,
            ratio[1] == 9,
    {
        [16, 9]
    }
}

/// A sequence of image files in one directory, one file for each frame id
/// that was seen.
pub struct ImageSequence {
    dir: String,
    extension: String,
    last_written: Option<u64>,
}

/// What an image sequence holds.
pub struct ImageSequenceView {
    pub dir: Seq<char>,
    pub extension: Seq<char>,
    pub last_written: Option<u64>,
}

impl View for ImageSequence {
    type V = ImageSequenceView;

    closed spec fn view(&self) -> ImageSequenceView {
        ImageSequenceView {
            dir: self.dir@,
            extension: self.extension@,
            last_written: self.last_written,
        }
    }
}

impl ImageSequence {
    /// A sequence in directory `dir` of which no frame was written yet.
    pub fn new(dir: String, extension: String) -> (sequence: Self)
        ensures
            sequence@ == (ImageSequenceView {
                dir: dir@,
                extension: extension@,
                last_written: None,
            }),
    {
        ImageSequence { dir, extension, last_written: None }
    }

    /// Looks at a snapshot with frame id `frame_id`. Where that is the id of
    /// the frame written last, there is nothing new and nothing to write.
    /// Otherwise returns the path of the file to write, and remembers the
    /// frame as written.
    pub fn next_path(&mut self, frame_id: u64) -> (path: Option<String>)
        ensures
            path is Some <==> old(self)@.last_written != Some(frame_id),
            path matches Some(p) ==> p@ == frame_path(
                old(self)@.dir,
                frame_id,
                old(self)@.extension,
            ),
            final(self)@ == (ImageSequenceView { last_written: Some(frame_id), ..old(self)@ }),
    {
        let fresh = match self.last_written {
            Some(written) => written != frame_id,
            None => true,
        };
        if fresh {
            self.last_written = Some(frame_id);
            Some(format_frame_path(self.dir.as_str(), frame_id, self.extension.as_str()))
        } else {
            None
        }
    }
}

} // verus!
