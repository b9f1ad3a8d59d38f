//! The arguments of the program.
//!
//! An argument that starts with `--` is an option, with its value behind
//! an equals sign where it takes one; any other argument is the path of the
//! file to play, and the last path given counts. `--help` ends the reading
//! of arguments where it stands.

use vstd::prelude::*;
use crate::pipeline::FilterSpec;
use crate::text::{
    chars_of, fields_of, find, find_char_from, lemma_find_from, parse_unsigned, spells, split_on,
    subvec, unsigned_of, views,
};

verus! {

/// An option of the program.
#[derive(Clone, Copy, Debug, PartialEq, Eq, Structural)]
pub enum Param {
    /// `--iopl`
    Iopl,
    /// `--switch-interval=<nanoseconds>`
    SwitchInterval(u64),
    /// `--low-pass=<hertz>`
    LowPass(u32),
    /// `--high-pass=<hertz>`
    HighPass(u32),
    /// `--bake-simple`
    BakeSimple,
    /// `--bake-diff=<percent>`
    BakeDifferential(u8),
    /// `--extract-freq=[min=<hertz>,max=<hertz>,sampling=<samples>,`
    /// `step=<samples>,channels=<count>]`, in this order.
    ExtractFreq(Option<u32>, Option<u32>, Option<u32>, Option<u32>, Option<u8>),
    /// `--note-matcher`
    NoteMatcher,
}

/// What is wrong with an argument.
#[derive(Clone, Copy, Debug, PartialEq, Eq, Structural)]
pub enum ParamErrorKind {
    /// The option, or a setting of it, takes a value and has none.
    MissingValue,
    /// The value is no number, or one too large.
    BadValue,
    /// There is no such option, or no such setting of the option.
    UnknownParameter,
}

/// What is wrong, and with which argument, counted from zero.
#[derive(Clone, Copy, Debug, PartialEq, Eq, Structural)]
pub struct ParamError {
    pub kind: ParamErrorKind,
    pub index: usize,
}

/// What the arguments ask for.
pub enum Command {
    /// To be told how the program is used.
    Help,
    /// To play a file.
    Play { path: Vec<char>, params: Vec<Param> },
}

/// What the arguments ask for.
pub ghost enum CommandView {
    Help,
    Play { path: Seq<char>, params: Seq<Param> },
}

impl View for Command {
    type V = CommandView;

    open spec fn view(&self) -> CommandView {
        match self {
            Command::Help => CommandView::Help,
            Command::Play { path, params } => CommandView::Play { path: path@, params: params@ },
        }
    }
}

/// Is the argument an option?
pub open spec fn is_option(arg: Seq<char>) -> bool {
    arg.len() >= 2 && arg[0] == '-' && arg[1] == '-'
}

/// What stands before the equals sign of an option.
pub open spec fn option_name(arg: Seq<char>) -> Seq<char> {
    match find(arg, '=') {
        Some(at) => arg.take(at),
        None => arg,
    }
}

/// What stands behind the equals sign of an option that has one.
pub open spec fn option_value(arg: Seq<char>) -> Option<Seq<char>> {
    match find(arg, '=') {
        Some(at) => Some(arg.skip(at + 1)),
        None => None,
    }
}

/// The number that the value of an option writes.
pub open spec fn number_of(value: Option<Seq<char>>, max: int) -> Result<int, ParamErrorKind> {
    match value {
        None => Err(ParamErrorKind::MissingValue),
        Some(text) => match unsigned_of(text, max) {
            Some(number) => Ok(number),
            None => Err(ParamErrorKind::BadValue),
        },
    }
}

/// The settings of an extractor with one more setting taken in. A setting
/// is a name, an equals sign and a number; what follows a second equals
/// sign is not looked at.
pub open spec fn with_setting(settings: Param, part: Seq<char>) -> Result<Param, ParamErrorKind> {
    let pieces = fields_of(part, '=');
    if pieces.len() < 2 {
        Err(ParamErrorKind::MissingValue)
    } else {
        let name = pieces[0];
        let value = pieces[1];
        match settings {
            Param::ExtractFreq(min, max, sampling, step, channels) => if name == "min"@ {
                match unsigned_of(value, 0xFFFF_FFFF) {
                    Some(n) => Ok(
                        Param::ExtractFreq(Some(n as u32), max, sampling, step, channels),
                    ),
                    None => Err(ParamErrorKind::BadValue),
                }
            } else if name == "max"@ {
                match unsigned_of(value, 0xFFFF_FFFF) {
                    Some(n) => Ok(
                        Param::ExtractFreq(min, Some(n as u32), sampling, step, channels),
                    ),
                    None => Err(ParamErrorKind::BadValue),
                }
            } else if name == "sampling"@ {
                match unsigned_of(value, 0xFFFF_FFFF) {
                    Some(n) => Ok(Param::ExtractFreq(min, max, Some(n as u32), step, channels)),
                    None => Err(ParamErrorKind::BadValue),
                }
            } else if name == "step"@ {
                match unsigned_of(value, 0xFFFF_FFFF) {
                    Some(n) => Ok(
                        Param::ExtractFreq(min, max, sampling, Some(n as u32), channels),
                    ),
                    None => Err(ParamErrorKind::BadValue),
                }
            } else if name == "channels"@ {
                match unsigned_of(value, 255) {
                    Some(n) => Ok(Param::ExtractFreq(min, max, sampling, step, Some(n as u8))),
                    None => Err(ParamErrorKind::BadValue),
                }
            } else {
                Err(ParamErrorKind::UnknownParameter)
            },
            _ => Err(ParamErrorKind::UnknownParameter),
        }
    }
}

/// The settings of an extractor that the parts of a value give, or what
/// is wrong with the first part that is wrong.
pub open spec fn settings_of(parts: Seq<Seq<char>>) -> Result<Param, ParamErrorKind>
    decreases parts.len(),
{
    if parts.len() == 0 {
        Ok(Param::ExtractFreq(None, None, None, None, None))
    } else {
        match settings_of(parts.drop_last()) {
            Err(kind) => Err(kind),
            Ok(settings) => with_setting(settings, parts.last()),
        }
    }
}

/// What an option asks for; nothing stands for `--help`.
pub open spec fn option_of(arg: Seq<char>) -> Result<Option<Param>, ParamErrorKind> {
    let name = option_name(arg);
    let value = option_value(arg);
    if name == "--iopl"@ {
        Ok(Some(Param::Iopl))
    } else if name == "--switch-interval"@ {
        match number_of(value, 0xFFFF_FFFF_FFFF_FFFF) {
            Ok(n) => Ok(Some(Param::SwitchInterval(n as u64))),
            Err(kind) => Err(kind),
        }
    } else if name == "--low-pass"@ {
        match number_of(value, 0xFFFF_FFFF) {
            Ok(n) => Ok(Some(Param::LowPass(n as u32))),
            Err(kind) => Err(kind),
        }
    } else if name == "--high-pass"@ {
        match number_of(value, 0xFFFF_FFFF) {
            Ok(n) => Ok(Some(Param::HighPass(n as u32))),
            Err(kind) => Err(kind),
        }
    } else if name == "--bake-simple"@ {
        Ok(Some(Param::BakeSimple))
    } else if name == "--bake-diff"@ {
        match number_of(value, 255) {
            Ok(n) => Ok(Some(Param::BakeDifferential(n as u8))),
            Err(kind) => Err(kind),
        }
    } else if name == "--note-matcher"@ {
        Ok(Some(Param::NoteMatcher))
    } else if name == "--extract-freq"@ {
        match value {
            None => Ok(Some(Param::ExtractFreq(None, None, None, None, None))),
            Some(text) => match settings_of(fields_of(text, ',')) {
                Ok(settings) => Ok(Some(settings)),
                Err(kind) => Err(kind),
            },
        }
    } else if name == "--help"@ {
        Ok(None)
    } else {
        Err(ParamErrorKind::UnknownParameter)
    }
}

/// What the arguments from `from` on ask for, after a path and options
/// were taken in already.
pub open spec fn command_of(
    args: Seq<Seq<char>>,
    from: int,
    path: Seq<char>,
    params: Seq<Param>,
) -> Result<CommandView, ParamError>
    decreases args.len() - from,
{
    if from < 0 || from >= args.len() {
        Ok(CommandView::Play { path, params })
    } else if is_option(args[from]) {
        match option_of(args[from]) {
            Err(kind) => Err(ParamError { kind, index: from as usize }),
            Ok(None) => Ok(CommandView::Help),
            Ok(Some(param)) => command_of(args, from + 1, path, params.push(param)),
        }
    } else {
        command_of(args, from + 1, args[from], params)
    }
}

/// The texts of a list of strings.
pub open spec fn texts(args: Seq<String>) -> Seq<Seq<char>> {
    Seq::new(args.len(), |i: int| args[i]@)
}

/// Reads the number that the value of an option writes.
fn read_number(value: &Option<Vec<char>>, max: u64) -> (r: Result<u64, ParamErrorKind>)
    ensures
        match r {
            Ok(n) => number_of(
                match value {
                    Some(text) => Some(text@),
                    None => None,
                },
                max as int,
            ) == Ok::<int, ParamErrorKind>(n as int) && n <= max,
            Err(kind) => number_of(
                match value {
                    Some(text) => Some(text@),
                    None => None,
                },
                max as int,
            ) == Err::<int, ParamErrorKind>(kind),
        },
{
    match value {
        None => Err(ParamErrorKind::MissingValue),
        Some(text) => match parse_unsigned(text.as_slice(), max) {
            Some(n) => Ok(n),
            None => Err(ParamErrorKind::BadValue),
        },
    }
}

/// Takes one more setting into the settings of an extractor.
fn read_setting(settings: Param, part: &[char]) -> (r: Result<Param, ParamErrorKind>)
    ensures
        r == with_setting(settings, part@),
{
    let pieces = split_on(part, '=');
    if pieces.len() < 2 {
        return Err(ParamErrorKind::MissingValue);
    }
    proof {
        assert(views(pieces@)[0] == pieces@[0]@);
        assert(views(pieces@)[1] == pieces@[1]@);
    }
    let name = pieces[0].as_slice();
    let value = pieces[1].as_slice();
    match settings {
        Param::ExtractFreq(min, max, sampling, step, channels) => {
            if spells(name, "min") {
                match parse_unsigned(value, 0xFFFF_FFFF) {
                    Some(n) => Ok(Param::ExtractFreq(Some(n as u32), max, sampling, step, channels)),
                    None => Err(ParamErrorKind::BadValue),
                }
            } else if spells(name, "max") {
                match parse_unsigned(value, 0xFFFF_FFFF) {
                    Some(n) => Ok(Param::ExtractFreq(min, Some(n as u32), sampling, step, channels)),
                    None => Err(ParamErrorKind::BadValue),
                }
            } else if spells(name, "sampling") {
                match parse_unsigned(value, 0xFFFF_FFFF) {
                    Some(n) => Ok(Param::ExtractFreq(min, max, Some(n as u32), step, channels)),
                    None => Err(ParamErrorKind::BadValue),
                }
            } else if spells(name, "step") {
                match parse_unsigned(value, 0xFFFF_FFFF) {
                    Some(n) => Ok(Param::ExtractFreq(min, max, sampling, Some(n as u32), channels)),
                    None => Err(ParamErrorKind::BadValue),
                }
            } else if spells(name, "channels") {
                match parse_unsigned(value, 255) {
                    Some(n) => Ok(Param::ExtractFreq(min, max, sampling, step, Some(n as u8))),
                    None => Err(ParamErrorKind::BadValue),
                }
            } else {
                Err(ParamErrorKind::UnknownParameter)
            }
        },
        _ => Err(ParamErrorKind::UnknownParameter),
    }
}

/// Reads the settings of an extractor from the value of its option.
fn read_settings(text: &[char]) -> (r: Result<Param, ParamErrorKind>)
    ensures
        r == settings_of(fields_of(text@, ',')),
{
    let parts = split_on(text, ',');
    let ghost all = views(parts@);
    let mut settings = Param::ExtractFreq(None, None, None, None, None);
    let mut i: usize = 0;
    proof {
        assert(all.take(0) =~= Seq::<Seq<char>>::empty());
    }
    while i < parts.len()
        invariant
            all == views(parts@),
            all == fields_of(text@, ','),
            0 <= i <= parts@.len(),
            settings_of(all.take(i as int)) == Ok::<Param, ParamErrorKind>(settings),
        decreases parts@.len() - i,
    {
        proof {
            assert(all.take(i + 1).drop_last() =~= all.take(i as int));
            assert(all.take(i + 1).last() == parts@[i as int]@);
        }
        match read_setting(settings, parts[i].as_slice()) {
            Ok(next) => {
                settings = next;
            },
            Err(kind) => {
                proof {
                    lemma_first_bad_setting(all, i + 1);
                }
                return Err(kind);
            },
        }
        i += 1;
    }
    proof {
        assert(all.take(i as int) =~= all);
    }
    Ok(settings)
}

/// A setting that is wrong among the first is what is wrong with all.
proof fn lemma_first_bad_setting(parts: Seq<Seq<char>>, n: int)
    requires
        0 <= n <= parts.len(),
        settings_of(parts.take(n)) is Err,
    ensures
        settings_of(parts) == settings_of(parts.take(n)),
    decreases parts.len() - n,
{
    if n < parts.len() {
        assert(parts.take(n + 1).drop_last() =~= parts.take(n));
        lemma_first_bad_setting(parts, n + 1);
    } else {
        assert(parts.take(n) =~= parts);
    }
}

/// Reads an option.
pub fn parse_option(arg: &[char]) -> (r: Result<Option<Param>, ParamErrorKind>)
    ensures
        r == option_of(arg@),
{
    proof {
        lemma_find_from(arg@, '=', 0);
    }
    let (name, value): (Vec<char>, Option<Vec<char>>) = match find_char_from(arg, '=', 0) {
        Some(at) => {
            assert(at < arg.len());
            let name = subvec(arg, 0, at);
            let value = subvec(arg, at + 1, arg.len());
            proof {
                assert(name@ =~= arg@.take(at as int));
                assert(value@ =~= arg@.skip(at + 1));
            }
            (name, Some(value))
        },
        None => {
            let name = subvec(arg, 0, arg.len());
            proof {
                assert(name@ =~= arg@);
            }
            (name, None)
        },
    };
    let name = name.as_slice();
    if spells(name, "--iopl") {
        Ok(Some(Param::Iopl))
    } else if spells(name, "--switch-interval") {
        match read_number(&value, 0xFFFF_FFFF_FFFF_FFFF) {
            Ok(n) => Ok(Some(Param::SwitchInterval(n))),
            Err(kind) => Err(kind),
        }
    } else if spells(name, "--low-pass") {
        match read_number(&value, 0xFFFF_FFFF) {
            Ok(n) => Ok(Some(Param::LowPass(n as u32))),
            Err(kind) => Err(kind),
        }
    } else if spells(name, "--high-pass") {
        match read_number(&value, 0xFFFF_FFFF) {
            Ok(n) => Ok(Some(Param::HighPass(n as u32))),
            Err(kind) => Err(kind),
        }
    } else if spells(name, "--bake-simple") {
        Ok(Some(Param::BakeSimple))
    } else if spells(name, "--bake-diff") {
        match read_number(&value, 255) {
            Ok(n) => Ok(Some(Param::BakeDifferential(n as u8))),
            Err(kind) => Err(kind),
        }
    } else if spells(name, "--note-matcher") {
        Ok(Some(Param::NoteMatcher))
    } else if spells(name, "--extract-freq") {
        match value {
            None => Ok(Some(Param::ExtractFreq(None, None, None, None, None))),
            Some(text) => match read_settings(text.as_slice()) {
                Ok(settings) => Ok(Some(settings)),
                Err(kind) => Err(kind),
            },
        }
    } else if spells(name, "--help") {
        Ok(None)
    } else {
        Err(ParamErrorKind::UnknownParameter)
    }
}

/// Reads the arguments of the program, its own name left out.
pub fn parse_params(params: &Vec<String>) -> (r: Result<Command, ParamError>)
    ensures
        match r {
            Ok(command) => command_of(texts(params@), 0, Seq::empty(), Seq::empty()) == Ok::<
                CommandView,
                ParamError,
            >(command@),
            Err(error) => command_of(texts(params@), 0, Seq::empty(), Seq::empty()) == Err::<
                CommandView,
                ParamError,
            >(error),
        },
{
    let ghost all = texts(params@);
    let mut path: Vec<char> = Vec::new();
    let mut result: Vec<Param> = Vec::new();
    let mut i: usize = 0;
    while i < params.len()
        invariant
            all == texts(params@),
            0 <= i <= params@.len(),
            command_of(all, 0, Seq::empty(), Seq::empty()) == command_of(
                all,
                i as int,
                path@,
                result@,
            ),
        decreases params@.len() - i,
    {
        let arg = chars_of(params[i].as_str());
        proof {
            assert(all[i as int] == arg@);
        }
        if arg.len() >= 2 && arg[0] == '-' && arg[1] == '-' {
            match parse_option(arg.as_slice()) {
                Err(kind) => {
                    return Err(ParamError { kind, index: i });
                },
                Ok(None) => {
                    return Ok(Command::Help);
                },
                Ok(Some(param)) => {
                    result.push(param);
                },
            }
        } else {
            path = arg;
        }
        i += 1;
    }
    Ok(Command::Play { path, params: result })
}

/// The way the speaker is driven.
#[derive(Clone, Copy, Debug, PartialEq, Eq, Structural)]
pub enum BeeperType {
    /// Through the port driver.
    Ioctl,
    /// By port instructions, after the privilege level was raised.
    Iopl,
}

/// How a file is played.
pub struct PlayParams {
    pub beeper_type: BeeperType,
    /// The interval, in nanoseconds, at which channels take turns.
    pub switch_interval: u64,
    pub filters: Vec<FilterSpec>,
}

/// How a file is played.
pub ghost struct PlayParamsView {
    pub beeper_type: BeeperType,
    pub switch_interval: u64,
    pub filters: Seq<FilterSpec>,
}

impl View for PlayParams {
    type V = PlayParamsView;

    open spec fn view(&self) -> PlayParamsView {
        PlayParamsView {
            beeper_type: self.beeper_type,
            switch_interval: self.switch_interval,
            filters: self.filters@,
        }
    }
}

/// How a file is played when nothing is asked for: through the port
/// driver, channels taking turns every 20 milliseconds, without filters.
pub open spec fn default_play() -> PlayParamsView {
    PlayParamsView {
        beeper_type: BeeperType::Ioctl,
        switch_interval: 20_000_000,
        filters: Seq::empty(),
    }
}

/// The filter that an option asks for, for samples of a given rate; none
/// for an option that asks for no filter. A window of 4096 samples, a step
/// of 32 samples and two channels stand for what an extractor leaves
/// open.
pub open spec fn filter_of(param: Param, sample_rate: u32) -> Option<FilterSpec> {
    match param {
        Param::Iopl => None,
        Param::SwitchInterval(_) => None,
        Param::LowPass(cutoff) => Some(FilterSpec::LowPass { sample_rate, cutoff }),
        Param::HighPass(cutoff) => Some(FilterSpec::HighPass { sample_rate, cutoff }),
        Param::BakeSimple => Some(FilterSpec::BakeSimple),
        Param::BakeDifferential(percentage) => Some(FilterSpec::BakeDifferential(percentage)),
        Param::ExtractFreq(min, max, sampling, step, channels) => Some(
            FilterSpec::ExtractFreq {
                lower_bound_hz: min,
                upper_bound_hz: max,
                sampling_size: match sampling {
                    Some(n) => n,
                    None => 4096,
                },
                step_by: match step {
                    Some(n) => n,
                    None => 32,
                },
                sample_rate,
                number_of_peaks: match channels {
                    Some(n) => n,
                    None => 2,
                },
            },
        ),
        Param::NoteMatcher => Some(FilterSpec::NoteMatcher),
    }
}

/// How a file is played after one more option.
pub open spec fn with_param(play: PlayParamsView, param: Param, sample_rate: u32) -> PlayParamsView {
    match param {
        Param::Iopl => PlayParamsView { beeper_type: BeeperType::Iopl, ..play },
        Param::SwitchInterval(interval) => PlayParamsView { switch_interval: interval, ..play },
        _ => PlayParamsView { filters: play.filters.push(filter_of(param, sample_rate)->0), ..play },
    }
}

/// How a wave of a given sample rate is played under the options.
pub open spec fn wave_play(params: Seq<Param>, sample_rate: u32) -> PlayParamsView
    decreases params.len(),
{
    if params.len() == 0 {
        default_play()
    } else {
        with_param(wave_play(params.drop_last(), sample_rate), params.last(), sample_rate)
    }
}

/// Can the option be given with a score? Only the way the speaker is
/// driven and the interval of turns can be chosen.
pub open spec fn fits_synth(param: Param) -> bool {
    param is Iopl || param is SwitchInterval
}

/// The place of the first option from `from` on that cannot be given with
/// a score.
pub open spec fn first_misfit(params: Seq<Param>, from: int) -> Option<int>
    decreases params.len() - from,
{
    if from < 0 || from >= params.len() {
        None
    } else if !fits_synth(params[from]) {
        Some(from)
    } else {
        first_misfit(params, from + 1)
    }
}

/// The filter that an option asks for.
pub fn filter_for(param: Param, sample_rate: u32) -> (r: Option<FilterSpec>)
    ensures
        r == filter_of(param, sample_rate),
{
    match param {
        Param::Iopl => None,
        Param::SwitchInterval(_) => None,
        Param::LowPass(cutoff) => Some(FilterSpec::LowPass { sample_rate, cutoff }),
        Param::HighPass(cutoff) => Some(FilterSpec::HighPass { sample_rate, cutoff }),
        Param::BakeSimple => Some(FilterSpec::BakeSimple),
        Param::BakeDifferential(percentage) => Some(FilterSpec::BakeDifferential(percentage)),
        Param::ExtractFreq(min, max, sampling, step, channels) => Some(
            FilterSpec::ExtractFreq {
                lower_bound_hz: min,
                upper_bound_hz: max,
                sampling_size: match sampling {
                    Some(n) => n,
                    None => 4096,
                },
                step_by: match step {
                    Some(n) => n,
                    None => 32,
                },
                sample_rate,
                number_of_peaks: match channels {
                    Some(n) => n,
                    None => 2,
                },
            },
        ),
        Param::NoteMatcher => Some(FilterSpec::NoteMatcher),
    }
}

/// How a wave of a given sample rate is played under the options.
pub fn parse_wave_params(params: &Vec<Param>, sample_rate: u32) -> (r: PlayParams)
    ensures
        r@ == wave_play(params@, sample_rate),
{
    let mut play = PlayParams {
        beeper_type: BeeperType::Ioctl,
        switch_interval: crate::pipeline::DEFAULT_SWITCH_INTERVAL,
        filters: Vec::new(),
    };
    let mut i: usize = 0;
    proof {
        assert(params@.take(0) =~= Seq::<Param>::empty());
        assert(play@.filters =~= Seq::<FilterSpec>::empty());
    }
    while i < params.len()
        invariant
            0 <= i <= params@.len(),
            play@ == wave_play(params@.take(i as int), sample_rate),
        decreases params@.len() - i,
    {
        proof {
            assert(params@.take(i + 1).drop_last() =~= params@.take(i as int));
        }
        let param = params[i];
        match param {
            Param::Iopl => {
                play.beeper_type = BeeperType::Iopl;
            },
            Param::SwitchInterval(interval) => {
                play.switch_interval = interval;
            },
            _ => {
                match filter_for(param, sample_rate) {
                    Some(filter) => {
                        play.filters.push(filter);
                    },
                    None => {},
                }
            },
        }
        i += 1;
    }
    proof {
        assert(params@.take(i as int) =~= params@);
    }
    play
}

/// How a score is played under the options, or the place of the first
/// option that does not go with a score.
pub fn parse_synth_params(params: &Vec<Param>) -> (r: Result<PlayParams, usize>)
    ensures
        match r {
            Ok(play) => first_misfit(params@, 0) is None && play@ == wave_play(params@, 0),
            Err(at) => first_misfit(params@, 0) == Some(at as int),
        },
{
    let mut i: usize = 0;
    while i < params.len()
        invariant
            0 <= i <= params@.len(),
            first_misfit(params@, 0) == first_misfit(params@, i as int),
        decreases params@.len() - i,
    {
        match params[i] {
            Param::Iopl => {},
            Param::SwitchInterval(_) => {},
            _ => {
                return Err(i);
            },
        }
        i += 1;
    }
    Ok(parse_wave_params(params, 0))
}

} // verus!
