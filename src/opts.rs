//! The run's configuration and the paths it reads and writes.
use vstd::prelude::*;
use vstd::string::{StrSliceExecFns, StringExecFns};
use crate::error::{Error, IOError};
use crate::kernel::Ditherer;
use crate::mode::Mode;
use crate::names::{decimal, ditherer_name, mode_name, push_decimal};

verus! {

/// What a run is asked to do.
#[derive(Clone, Debug, PartialEq, Eq)]
pub struct Opt {
    /// Report progress.
    pub verbose: bool,
    /// The image to read.
    pub input: String,
    /// Bit depth, `1..=7`.
    pub bit_depth: u8,
    /// Where to write; a name is made up from the input's when absent.
    pub output: Option<String>,
    /// The error-diffusion algorithm.
    pub ditherer: Ditherer,
    /// The color mode.
    pub color_mode: Mode,
}

/// Index of the last `c` in `s`, or -1.
pub open spec fn last_index_of(s: Seq<char>, c: char) -> int
    decreases s.len(),
{
    if s.len() == 0 {
        -1
    } else if s.last() == c {
        s.len() - 1
    } else {
        last_index_of(s.drop_last(), c)
    }
}

/// The last component of a `/`-separated path.
pub open spec fn file_name(p: Seq<char>) -> Seq<char> {
    p.subrange(last_index_of(p, '/') + 1, p.len() as int)
}

/// The file name without its extension: up to its last `.`, unless that
/// `.` starts the name.
pub open spec fn file_stem(p: Seq<char>) -> Seq<char> {
    let n = file_name(p);
    let d = last_index_of(n, '.');
    if d > 0 {
        n.subrange(0, d)
    } else {
        n
    }
}

fn find_last(s: &str, c: char) -> (r: i64)
    requires
        s@.len() < 0x7FFF_FFFF,
    ensures
        r == last_index_of(s@, c),
{
    let n = s.unicode_len();
    let mut i: usize = n;
    assert(s@.subrange(0, n as int) =~= s@);
    while i > 0
        invariant
            n == s@.len(),
            i <= n,
            n < 0x7FFF_FFFF,
            last_index_of(s@, c) == last_index_of(s@.subrange(0, i as int), c),
        decreases i,
    {
        let ghost prefix = s@.subrange(0, i as int);
        assert(prefix.drop_last() =~= s@.subrange(0, i - 1));
        if s.get_char(i - 1) == c {
            return (i - 1) as i64;
        }
        i = i - 1;
    }
    -1
}

/// The file stem of a `/`-separated path.
pub fn stem_of(p: &str) -> (r: String)
    requires
        p@.len() < 0x7FFF_FFFF,
    ensures
        r@ == file_stem(p@),
{
    proof {
        assert(p@.subrange(0, p@.len() as int) =~= p@);
    }
    let n = p.unicode_len();
    let slash = find_last(p, '/');
    proof {
        lemma_last_index_in_range(p@, '/');
    }
    let name = p.substring_char((slash + 1) as usize, n);
    proof {
        assert(name@.subrange(0, name@.len() as int) =~= name@);
    }
    let dot = find_last(name, '.');
    proof {
        lemma_last_index_in_range(name@, '.');
    }
    if dot > 0 {
        String::from_str(name.substring_char(0, dot as usize))
    } else {
        String::from_str(name)
    }
}

proof fn lemma_last_index_in_range(s: Seq<char>, c: char)
    ensures
        -1 <= last_index_of(s, c) < s.len(),
    decreases s.len(),
{
    if s.len() > 0 && s.last() != c {
        lemma_last_index_in_range(s.drop_last(), c);
    }
}

/// The default output name for `opt`, from the canonical input path `p`.
pub open spec fn default_output(opt: Opt, p: Seq<char>) -> Seq<char> {
    file_stem(p) + "_dithered_"@ + ditherer_name(opt.ditherer) + "_"@ + mode_name(opt.color_mode) + "_"@
        + decimal(opt.bit_depth as nat) + ".png"@
}

impl Opt {
    /// The input path in canonical form. `canonical` is the outcome of
    /// canonicalizing `self.input`: the path, or why it failed.
    pub fn input_path(&self, canonical: Result<String, String>) -> (r: Result<String, Error>)
        ensures
            canonical matches Ok(p) ==> r == Ok::<String, Error>(p),
            canonical matches Err(c) ==> (r matches Err(Error::Input(e)) && e.path@ == self.input@ && e.cause@ == c@),
    {
        match canonical {
            Ok(p) => Ok(p),
            Err(cause) => Err(Error::Input(IOError { path: self.input.clone(), cause })),
        }
    }

    /// The path whose canonical form `output_path` is built from: the output
    /// if one is given, else the input.
    pub fn output_source(&self) -> (r: &String)
        ensures
            self.output matches Some(o) ==> r == o,
            self.output is None ==> r == self.input,
    {
        match &self.output {
            Some(o) => o,
            None => &self.input,
        }
    }

    /// The output path: the canonical form of the given output, or else
    /// `{stem}_dithered_{dither}_{color}_{depth}.png`, where `stem` is the file
    /// stem of the canonical input path. `canonical` is the outcome of
    /// canonicalizing `output_source()`.
    pub fn output_path(&self, canonical: Result<String, String>) -> (r: Result<String, Error>)
        ensures
            self.output is Some && canonical is Ok ==> r == Ok::<String, Error>(canonical->Ok_0),
            self.output is Some && canonical is Err ==> (r matches Err(Error::Output(e))
                && e.path@ == self.output->Some_0@ && e.cause@ == canonical->Err_0@),
            self.output is None && canonical is Err ==> (r matches Err(Error::Output(e))
                && e.path@ == self.input@
                && e.cause@ == canonical->Err_0@ + "; could not create default output path from input path"@),
            self.output is None && canonical is Ok && canonical->Ok_0@.len() < 0x7FFF_FFFF ==> (r matches Ok(n)
                && n@ == default_output(*self, canonical->Ok_0@)),
    {
        match &self.output {
            Some(o) => match canonical {
                Ok(p) => Ok(p),
                Err(cause) => Err(Error::Output(IOError { path: o.clone(), cause })),
            },
            None => match canonical {
                Err(cause) => {
                    let mut c = cause;
                    c.append("; could not create default output path from input path");
                    Err(Error::Output(IOError { path: self.input.clone(), cause: c }))
                },
                Ok(p) => {
                    if p.unicode_len() >= 0x7FFF_FFFF {
                        return Ok(p);
                    }
                    let mut s = stem_of(p.as_str());
                    s.append("_dithered_");
                    let d = self.ditherer.name();
                    s.append(d.as_str());
                    s.append("_");
                    let m = self.color_mode.name();
                    s.append(m.as_str());
                    s.append("_");
                    push_decimal(&mut s, self.bit_depth);
                    s.append(".png");
                    Ok(s)
                },
            },
        }
    }
}

impl Default for Opt {
    fn default() -> (o: Opt)
        ensures
            o.verbose == false,
            o.input@ == Seq::<char>::empty(),
            o.bit_depth == 1,
            o.output is None,
            o.ditherer == Ditherer::Floyd,
            o.color_mode == Mode::BlackAndWhite,
    {
        Opt {
            verbose: false,
            input: String::new(),
            bit_depth: 1,
            output: None,
            ditherer: Ditherer::Floyd,
            color_mode: Mode::BlackAndWhite,
        }
    }
}

} // verus!
