//! Where the rasters of a volume are stored: one directory for each volume,
//! named after the volume's file, and in it one file for each depth.
//!
//! Paths are text with `/` between their parts.

use vstd::prelude::*;

verus! {

/// What is known of a path on disk.
#[derive(Debug, Clone, Copy, PartialEq, Eq)]
pub enum Existence {
    /// Nobody has looked yet.
    Unknown,
    /// It was found, or it was made.
    Exists,
}

/// A path to write to, with what is known of it.
#[derive(Debug)]
pub struct TargetPath {
    pub path: String,
    pub existence: Existence,
}

/// The directory that takes the rasters of one volume.
pub type TargetImageDir = TargetPath;

/// A directory for rasters at `dir`, of which nothing is known yet.
#[allow(non_snake_case)]
pub fn TargetImageDir(dir: String) -> (target: TargetImageDir)
    ensures
        target.path == dir,
        target.existence == Existence::Unknown,
{
    TargetPath { path: dir, existence: Existence::Unknown }
}

/// `name` put behind `base` as one more part of the path. A `name` that
/// starts at the root stands for itself; an empty `base`, or one that ends
/// in `/`, takes `name` as it is; otherwise a `/` goes between the two.
pub open spec fn joined(base: Seq<char>, name: Seq<char>) -> Seq<char> {
    if name.len() > 0 && name[0] == '/' {
        name
    } else if base.len() == 0 || base.last() == '/' {
        base + name
    } else {
        base + seq!['/'] + name
    }
}

/// The ten digits, in order.
pub open spec fn digit_chars() -> Seq<char> {
    "0123456789"@
}

/// The digits of a number in base ten, the most significant first.
pub open spec fn decimal_digits(n: nat) -> Seq<u8>
    decreases n,
{
    if n < 10 {
        seq![n as u8]
    } else {
        decimal_digits(n / 10).push((n % 10) as u8)
    }
}

/// The number written in base ten, with zeros in front where it has fewer
/// than `width` digits. A number of more digits is written in full.
pub open spec fn zero_padded(n: nat, width: nat) -> Seq<char> {
    let digits = decimal_digits(n);
    let zeros = if digits.len() < width {
        (width - digits.len()) as nat
    } else {
        0
    };
    Seq::new(zeros, |i: int| digit_chars()[0]) + Seq::new(
        digits.len(),
        |i: int| digit_chars()[digits[i] as int],
    )
}

/// The name of the file that takes the slice at depth `z`: the depth in at
/// least four digits, and the suffix of a PNG file.
pub open spec fn slice_file_name_of(z: nat) -> Seq<char> {
    zero_padded(z, 4) + ".png"@
}

/// A number has at least one digit, and each digit is below ten.
pub proof fn lemma_decimal_digits(n: nat)
    ensures
        decimal_digits(n).len() >= 1,
        forall|i: int| 0 <= i < decimal_digits(n).len() ==> #[trigger] decimal_digits(n)[i] < 10,
    decreases n,
{
    if n >= 10 {
        lemma_decimal_digits(n / 10);
    }
}

/// A number below ten thousand is written in exactly four digits: those of
/// its thousands, hundreds, tens and units. From ten thousand on it takes
/// as many digits as it has.
pub proof fn lemma_zero_padded_four(n: nat)
    ensures
        n < 10000 ==> zero_padded(n, 4) == seq![
            digit_chars()[n as int / 1000],
            digit_chars()[n as int / 100 % 10],
            digit_chars()[n as int / 10 % 10],
            digit_chars()[n as int % 10],
        ],
        n >= 10000 ==> zero_padded(n, 4).len() == decimal_digits(n).len() >= 5,
{
    reveal_with_fuel(decimal_digits, 6);
    if n < 10000 {
        assert(zero_padded(n, 4) =~= seq![
            digit_chars()[n as int / 1000],
            digit_chars()[n as int / 100 % 10],
            digit_chars()[n as int / 10 % 10],
            digit_chars()[n as int % 10],
        ]);
    } else {
        lemma_decimal_digits(n / 10000);
    }
}

/// Puts `name` behind `base` as one more part of the path.
pub fn join(base: &str, name: &str) -> (path: String)
    ensures
        path@ == joined(base@, name@),
{
    let name_len: usize = name.unicode_len();
    if name_len > 0 && name.get_char(0) == '/' {
        return name.to_owned();
    }
    let base_len: usize = base.unicode_len();
    let mut path: String = base.to_owned();
    if base_len > 0 && base.get_char(base_len - 1) != '/' {
        proof {
            reveal_strlit("/");
        }
        path.append("/");
    }
    path.append(name);
    path
}

/// Appends the digits of `n` in base ten to `digits`.
fn push_decimal_digits(n: usize, digits: &mut Vec<u8>)
    ensures
        final(digits)@ == old(digits)@ + decimal_digits(n as nat),
    decreases n,
{
    if n >= 10 {
        push_decimal_digits(n / 10, digits);
    }
    digits.push((n % 10) as u8);
}

/// The name of the file that takes the slice at depth `z`: `0000.png`,
/// `0001.png` and so on, and `10000.png` where four digits no longer do.
pub fn slice_file_name(z: usize) -> (name: String)
    ensures
        name@ == slice_file_name_of(z as nat),
{
    let mut digits: Vec<u8> = Vec::new();
    push_decimal_digits(z, &mut digits);
    proof {
        lemma_decimal_digits(z as nat);
        reveal_strlit("0123456789");
    }
    let ghost wanted = decimal_digits(z as nat);
    let table: &str = "0123456789";
    let mut name: String = String::new();
    let mut zeros: usize = if digits.len() < 4 {
        4 - digits.len()
    } else {
        0
    };
    let ghost padding = zeros as nat;
    while zeros > 0
        invariant
            zeros <= padding,
            table@ == digit_chars(),
            table@.len() == 10,
            table.is_ascii(),
            name@ == Seq::new((padding - zeros) as nat, |i: int| digit_chars()[0]),
        decreases zeros,
    {
        name.append(table.substring_ascii(0, 1));
        zeros -= 1;
    }
    let ghost front = name@;
    let mut i: usize = 0;
    while i < digits.len()
        invariant
            i <= digits@.len(),
            digits@.len() == wanted.len(),
            forall|j: int| 0 <= j < wanted.len() ==> #[trigger] digits@[j] == wanted[j],
            forall|j: int| 0 <= j < wanted.len() ==> #[trigger] wanted[j] < 10,
            table@ == digit_chars(),
            table@.len() == 10,
            table.is_ascii(),
            name@ == front + Seq::new(i as nat, |j: int| digit_chars()[wanted[j] as int]),
        decreases digits@.len() - i,
    {
        let d: usize = digits[i] as usize;
        name.append(table.substring_ascii(d, d + 1));
        i += 1;
    }
    name.append(".png");
    name
}

impl TargetPath {
    /// The directory for the rasters of the volume in the file `nii_file`,
    /// below `base_png_stub`; nothing is known of it yet.
    pub fn png_stub(base_png_stub: &str, nii_file: &str) -> (target: TargetImageDir)
        ensures
            target.path@ == joined(base_png_stub@, nii_file@),
            target.existence == Existence::Unknown,
    {
        TargetImageDir(join(base_png_stub, nii_file))
    }

    /// The path of the file that takes the slice at depth `z`. Time is no
    /// part of it: of the slices at one depth, the one written last stays.
    pub fn slice_file(&self, z: usize) -> (file: String)
        ensures
            file@ == joined(self.path@, slice_file_name_of(z as nat)),
    {
        let name = slice_file_name(z);
        join(self.path.as_str(), name.as_str())
    }
}

} // verus!
