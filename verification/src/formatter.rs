//! The headers of the columns in which states and navigation solutions are
//! written, and the texts that name them.

use crate::errors::NyxError;
use crate::params::{EpochFormat, HeaderUnit, StateParameter};
use crate::text::{lemma_split_at_len, lowercase, split_at, split_colons, text_is, texts, to_lower};
use vstd::prelude::*;
use vstd::std_specs::convert::FromSpecImpl;

verus! {

/// What is to be written, as a configuration gives it.
#[derive(Clone, Debug)]
pub struct OutputSerde {
    pub filename: String,
    /// The headers of the columns; the default headers where there are none.
    pub headers: Option<Vec<String>>,
}

/// The header of a column of a state: a parameter, and either the frame in which
/// it is given or the format of an epoch.
#[derive(Clone, Debug, PartialEq, Eq)]
pub struct StateHeader {
    /// The parameter, or the epoch
    pub param: StateParameter,
    pub frame_name: Option<String>,
    pub epoch_fmt: Option<EpochFormat>,
}

/// A header of a state with its texts as sequences of characters.
pub struct StateHeaderView {
    pub param: StateParameter,
    pub frame_name: Option<Seq<char>>,
    pub epoch_fmt: Option<EpochFormat>,
}

/// The text of an optional string.
pub open spec fn text_of(s: Option<String>) -> Option<Seq<char>> {
    match s {
        Some(t) => Some(t@),
        None => None,
    }
}

impl View for StateHeader {
    type V = StateHeaderView;

    open spec fn view(&self) -> StateHeaderView {
        StateHeaderView {
            param: self.param,
            frame_name: text_of(self.frame_name),
            epoch_fmt: self.epoch_fmt,
        }
    }
}

/// The views of the headers `h`.
pub open spec fn header_views(h: Seq<StateHeader>) -> Seq<StateHeaderView> {
    h.map_values(|x: StateHeader| x@)
}

/// The text behind the name of a parameter that gives its unit.
pub open spec fn unit_suffix(unit: HeaderUnit) -> Seq<char> {
    match unit {
        HeaderUnit::Kilometers => " (km)"@,
        HeaderUnit::KilometersPerSecond => " (km/s)"@,
        HeaderUnit::Degrees => " (deg)"@,
        HeaderUnit::Unitless => ""@,
    }
}

/// The text behind the unit: the frame where the header names one, and else the
/// format of the epoch where it has one.
pub open spec fn header_suffix(h: StateHeaderView) -> Seq<char> {
    match h.frame_name {
        Some(frame) => ":"@ + frame,
        None => match h.epoch_fmt {
            Some(format) => ":"@ + format.spec_name(),
            None => ""@,
        },
    }
}

/// The text of the header of a state: the name of the parameter, its unit, and
/// the frame or the format of the epoch.
pub open spec fn header_text(h: StateHeaderView) -> Seq<char> {
    h.param.spec_name() + unit_suffix(h.param.spec_unit()) + header_suffix(h)
}

/// The header of a parameter without a frame: with the format of Gregorian dates
/// in UTC for the epoch, and with no format for any other parameter.
pub open spec fn header_of(param: StateParameter) -> StateHeader {
    StateHeader {
        param,
        frame_name: None,
        epoch_fmt: if param == StateParameter::Epoch {
            Some(EpochFormat::GregorianUtc)
        } else {
            None
        },
    }
}

impl From<StateParameter> for StateHeader {
    fn from(param: StateParameter) -> (r: StateHeader) {
        StateHeader {
            param,
            frame_name: None,
            epoch_fmt: if param == StateParameter::Epoch {
                Some(EpochFormat::GregorianUtc)
            } else {
                None
            },
        }
    }
}

impl FromSpecImpl<StateParameter> for StateHeader {
    open spec fn obeys_from_spec() -> bool {
        true
    }

    open spec fn from_spec(param: StateParameter) -> StateHeader {
        header_of(param)
    }
}

fn unit_text(unit: HeaderUnit) -> (r: &'static str)
    ensures
        r@ == unit_suffix(unit),
{
    match unit {
        HeaderUnit::Kilometers => " (km)",
        HeaderUnit::KilometersPerSecond => " (km/s)",
        HeaderUnit::Degrees => " (deg)",
        HeaderUnit::Unitless => "",
    }
}

impl StateHeader {
    /// The text of the header.
    pub fn to_string(&self) -> (r: String)
        ensures
            r@ == header_text(self@),
    {
        let named = self.param.name().concat(unit_text(self.param.unit()));
        match &self.frame_name {
            Some(frame) => named.concat(":").concat(frame.as_str()),
            None => match &self.epoch_fmt {
                Some(format) => {
                    let format_name = format.name();
                    named.concat(":").concat(format_name.as_str())
                },
                None => {
                    assert(named@ + ""@ == named@) by {
                        reveal_strlit("");
                        assert(named@ + ""@ =~= named@);
                    }
                    named
                },
            },
        }
    }
}

/// What the text `t` of a header of a state stands for: behind the word `epoch`
/// the format of the epoch, which is that of Gregorian dates in UTC where none is
/// named; behind any other word the parameter of that name, in the frame that is
/// named where the text has two parts. `None` where the text names no parameter
/// or no format.
pub open spec fn parsed_state_header(t: Seq<char>) -> Option<StateHeaderView> {
    let parts = split_at(t, ':');
    let keyword = lowercase(parts[0]);
    if keyword == "epoch"@ {
        if parts.len() == 2 {
            match EpochFormat::named(lowercase(parts[1])) {
                Some(format) => Some(
                    StateHeaderView {
                        param: StateParameter::Epoch,
                        frame_name: None,
                        epoch_fmt: Some(format),
                    },
                ),
                None => None,
            }
        } else {
            Some(
                StateHeaderView {
                    param: StateParameter::Epoch,
                    frame_name: None,
                    epoch_fmt: Some(EpochFormat::GregorianUtc),
                },
            )
        }
    } else {
        match StateParameter::named(keyword) {
            Some(param) => Some(
                StateHeaderView {
                    param,
                    frame_name: if parts.len() == 2 {
                        Some(parts[1])
                    } else {
                        None
                    },
                    epoch_fmt: None,
                },
            ),
            None => None,
        }
    }
}

/// The header that the text `text` stands for; the error of loading where it
/// names no parameter or no format of an epoch.
pub fn parse_state_header(text: &str) -> (r: Result<StateHeader, NyxError>)
    ensures
        r is Ok <==> parsed_state_header(text@) is Some,
        r matches Ok(h) ==> parsed_state_header(text@) == Some(h@),
        r matches Err(e) ==> e matches NyxError::LoadingError(what) && what@ == text@,
{
    let mut parts = split_colons(text);
    proof {
        lemma_split_at_len(text@, ':');
        assert(texts(parts@).len() == parts@.len());
        assert(texts(parts@)[0] == parts@[0]@);
        if parts@.len() == 2 {
            assert(texts(parts@)[1] == parts@[1]@);
        }
    }
    let keyword = to_lower(parts[0].as_str());
    if text_is(keyword.as_str(), "epoch") {
        let format = if parts.len() == 2 {
            let name = to_lower(parts[1].as_str());
            match EpochFormat::from_keyword(name.as_str()) {
                Some(format) => format,
                None => {
                    return Err(NyxError::LoadingError(text.to_owned()));
                },
            }
        } else {
            EpochFormat::GregorianUtc
        };
        Ok(StateHeader { param: StateParameter::Epoch, frame_name: None, epoch_fmt: Some(format) })
    } else {
        match StateParameter::from_keyword(keyword.as_str()) {
            Some(param) => {
                let frame_name = if parts.len() == 2 {
                    let ghost frame = parts@[1];
                    let name = parts.pop();
                    assert(name == Some(frame));
                    name
                } else {
                    None
                };
                Ok(StateHeader { param, frame_name, epoch_fmt: None })
            },
            None => Err(NyxError::LoadingError(text.to_owned())),
        }
    }
}

/// How the states of an orbit are written: the file, and the headers of its
/// columns.
#[derive(Clone, Debug)]
pub struct StateFormatter {
    pub filename: String,
    pub headers: Vec<StateHeader>,
}

/// The headers of the default columns: the epoch, the position and the velocity.
pub open spec fn default_state_headers() -> Seq<StateHeader> {
    seq![
        header_of(StateParameter::Epoch),
        header_of(StateParameter::X),
        header_of(StateParameter::Y),
        header_of(StateParameter::Z),
        header_of(StateParameter::VX),
        header_of(StateParameter::VY),
        header_of(StateParameter::VZ),
    ]
}

/// Whether each of the texts `t` stands for a header of a state.
pub open spec fn all_state_headers(t: Seq<String>) -> bool {
    forall|i: int| 0 <= i < t.len() ==> parsed_state_header((#[trigger] t[i])@) is Some
}

impl StateFormatter {
    /// The frames that the headers name, in the order of the headers.
    pub open spec fn spec_frame_names(h: Seq<StateHeaderView>) -> Seq<Seq<char>>
        decreases h.len(),
    {
        if h.len() == 0 {
            Seq::<Seq<char>>::empty()
        } else {
            match h.last().frame_name {
                Some(name) => Self::spec_frame_names(h.drop_last()).push(name),
                None => Self::spec_frame_names(h.drop_last()),
            }
        }
    }

    /// The formatter of the columns that the texts `headers` stand for, into the
    /// file `filename`; the error of loading where one of them stands for none.
    pub fn from_headers(headers: &Vec<String>, filename: String) -> (r: Result<
        StateFormatter,
        NyxError,
    >)
        ensures
            r is Ok <==> all_state_headers(headers@),
            r matches Ok(f) ==> f.filename == filename && f.headers@.len() == headers@.len()
                && forall|i: int|
                0 <= i < headers@.len() ==> parsed_state_header(headers@[i]@) == Some(
                    (#[trigger] f.headers@[i])@,
                ),
            r matches Err(e) ==> e is LoadingError,
    {
        let mut parsed: Vec<StateHeader> = Vec::with_capacity(headers.len());
        let mut i: usize = 0;
        while i < headers.len()
            invariant
                i <= headers@.len(),
                parsed@.len() == i,
                forall|k: int| 0 <= k < i ==> parsed_state_header(headers@[k]@) == Some(
                    (#[trigger] parsed@[k])@,
                ),
            decreases headers@.len() - i,
        {
            match parse_state_header(headers[i].as_str()) {
                Ok(header) => {
                    parsed.push(header);
                },
                Err(error) => {
                    assert(parsed_state_header(headers@[i as int]@) is None);
                    return Err(error);
                },
            }
            i = i + 1;
        }
        assert forall|k: int| 0 <= k < headers@.len() implies parsed_state_header(
            (#[trigger] headers@[k])@,
        ) is Some by {
            assert(parsed_state_header(headers@[k]@) == Some(parsed@[k]@));
        }
        Ok(StateFormatter { filename, headers: parsed })
    }

    /// The formatter of the default columns, into the file `filename`: the epoch
    /// as a Gregorian date in UTC, the position and the velocity.
    pub fn default(filename: String) -> (r: StateFormatter)
        ensures
            r.filename == filename,
            r.headers@ == default_state_headers(),
    {
        let mut headers: Vec<StateHeader> = Vec::with_capacity(7);
        headers.push(StateHeader::from(StateParameter::Epoch));
        headers.push(StateHeader::from(StateParameter::X));
        headers.push(StateHeader::from(StateParameter::Y));
        headers.push(StateHeader::from(StateParameter::Z));
        headers.push(StateHeader::from(StateParameter::VX));
        headers.push(StateHeader::from(StateParameter::VY));
        headers.push(StateHeader::from(StateParameter::VZ));
        assert(headers@ =~= default_state_headers());
        StateFormatter { filename, headers }
    }

    /// The frames that the headers name, in the order of the headers: those in
    /// which a state is needed to write a row.
    pub fn frame_names(&self) -> (r: Vec<String>)
        ensures
            texts(r@) == Self::spec_frame_names(header_views(self.headers@)),
    {
        let ghost h = header_views(self.headers@);
        let mut names: Vec<String> = Vec::new();
        let mut i: usize = 0;
        assert(h.subrange(0, 0) =~= Seq::<StateHeaderView>::empty());
        assert(texts(names@) =~= Seq::<Seq<char>>::empty());
        while i < self.headers.len()
            invariant
                i <= self.headers@.len(),
                h == header_views(self.headers@),
                texts(names@) == Self::spec_frame_names(h.subrange(0, i as int)),
            decreases self.headers@.len() - i,
        {
            proof {
                assert(h.subrange(0, i as int + 1).drop_last() == h.subrange(0, i as int));
                assert(h.subrange(0, i as int + 1).last() == self.headers@[i as int]@);
            }
            let ghost before = names@;
            match &self.headers[i].frame_name {
                Some(name) => {
                    names.push(name.clone());
                    assert(texts(names@) =~= texts(before).push(name@));
                },
                None => {},
            }
            i = i + 1;
        }
        assert(h.subrange(0, i as int) == h);
        names
    }
}

impl OutputSerde {
    /// The formatter of states that the configuration asks for: that of its
    /// headers, and else that of the default columns.
    pub fn to_state_formatter(&self) -> (r: Result<StateFormatter, NyxError>)
        ensures
            self.headers is None ==> (r matches Ok(f) && f.filename == self.filename && f.headers@
                == default_state_headers()),
            self.headers matches Some(h) ==> (r is Ok <==> all_state_headers(h@)),
            self.headers matches Some(h) ==> (r matches Ok(f) ==> f.filename == self.filename
                && f.headers@.len() == h@.len() && forall|i: int|
                0 <= i < h@.len() ==> parsed_state_header(h@[i]@) == Some(
                    (#[trigger] f.headers@[i])@,
                )),
    {
        match &self.headers {
            Some(headers) => StateFormatter::from_headers(headers, self.filename.clone()),
            None => Ok(StateFormatter::default(self.filename.clone())),
        }
    }
}

/// The header of a column of a navigation solution.
#[allow(non_camel_case_types)]
#[derive(Clone, Debug, PartialEq, Eq)]
pub enum NavSolutionHeader {
    /// The epoch in the given format
    Epoch(EpochFormat),
    /// The headers of the estimated state
    EstimatedState(Vec<StateHeader>),
    /// The headers of the nominal state
    NominalState(Vec<StateHeader>),
    /// Deviation of the orbit in X (km)
    Delta_x,
    /// Deviation of the orbit in Y (km)
    Delta_y,
    /// Deviation of the orbit in Z (km)
    Delta_z,
    /// Deviation of the orbit in VX (km/s)
    Delta_vx,
    /// Deviation of the orbit in VY (km/s)
    Delta_vy,
    /// Deviation of the orbit in VZ (km/s)
    Delta_vz,
    /// Covariance matrix [1,1]
    Cx_x { frame: Option<String> },
    /// Covariance matrix [2,1]
    Cy_x { frame: Option<String> },
    /// Covariance matrix [2,2]
    Cy_y { frame: Option<String> },
    /// Covariance matrix [3,1]
    Cz_x { frame: Option<String> },
    /// Covariance matrix [3,2]
    Cz_y { frame: Option<String> },
    /// Covariance matrix [3,3]
    Cz_z { frame: Option<String> },
    /// Covariance matrix [4,1]
    Cx_dot_x { frame: Option<String> },
    /// Covariance matrix [4,2]
    Cx_dot_y { frame: Option<String> },
    /// Covariance matrix [4,3]
    Cx_dot_z { frame: Option<String> },
    /// Covariance matrix [4,4]
    Cx_dot_x_dot { frame: Option<String> },
    /// Covariance matrix [5,1]
    Cy_dot_x { frame: Option<String> },
    /// Covariance matrix [5,2]
    Cy_dot_y { frame: Option<String> },
    /// Covariance matrix [5,3]
    Cy_dot_z { frame: Option<String> },
    /// Covariance matrix [5,4]
    Cy_dot_x_dot { frame: Option<String> },
    /// Covariance matrix [5,5]
    Cy_dot_y_dot { frame: Option<String> },
    /// Covariance matrix [6,1]
    Cz_dot_x { frame: Option<String> },
    /// Covariance matrix [6,2]
    Cz_dot_y { frame: Option<String> },
    /// Covariance matrix [6,3]
    Cz_dot_z { frame: Option<String> },
    /// Covariance matrix [6,4]
    Cz_dot_x_dot { frame: Option<String> },
    /// Covariance matrix [6,5]
    Cz_dot_y_dot { frame: Option<String> },
    /// Covariance matrix [6,6]
    Cz_dot_z_dot { frame: Option<String> },
}

/// The word by which a header names a deviation or an entry of the covariance;
/// `None` of the header of an epoch or of a state.
pub open spec fn column_keyword(h: NavSolutionHeader) -> Option<Seq<char>> {
    match h {
        NavSolutionHeader::Delta_x => Some("delta_x"@),
        NavSolutionHeader::Delta_y => Some("delta_y"@),
        NavSolutionHeader::Delta_z => Some("delta_z"@),
        NavSolutionHeader::Delta_vx => Some("delta_vx"@),
        NavSolutionHeader::Delta_vy => Some("delta_vy"@),
        NavSolutionHeader::Delta_vz => Some("delta_vz"@),
        NavSolutionHeader::Cx_x { .. } => Some("cx_x"@),
        NavSolutionHeader::Cy_x { .. } => Some("cy_x"@),
        NavSolutionHeader::Cy_y { .. } => Some("cy_y"@),
        NavSolutionHeader::Cz_x { .. } => Some("cz_x"@),
        NavSolutionHeader::Cz_y { .. } => Some("cz_y"@),
        NavSolutionHeader::Cz_z { .. } => Some("cz_z"@),
        NavSolutionHeader::Cx_dot_x { .. } => Some("cx_dot_x"@),
        NavSolutionHeader::Cx_dot_y { .. } => Some("cx_dot_y"@),
        NavSolutionHeader::Cx_dot_z { .. } => Some("cx_dot_z"@),
        NavSolutionHeader::Cx_dot_x_dot { .. } => Some("cx_dot_x_dot"@),
        NavSolutionHeader::Cy_dot_x { .. } => Some("cy_dot_x"@),
        NavSolutionHeader::Cy_dot_y { .. } => Some("cy_dot_y"@),
        NavSolutionHeader::Cy_dot_z { .. } => Some("cy_dot_z"@),
        NavSolutionHeader::Cy_dot_x_dot { .. } => Some("cy_dot_x_dot"@),
        NavSolutionHeader::Cy_dot_y_dot { .. } => Some("cy_dot_y_dot"@),
        NavSolutionHeader::Cz_dot_x { .. } => Some("cz_dot_x"@),
        NavSolutionHeader::Cz_dot_y { .. } => Some("cz_dot_y"@),
        NavSolutionHeader::Cz_dot_z { .. } => Some("cz_dot_z"@),
        NavSolutionHeader::Cz_dot_x_dot { .. } => Some("cz_dot_x_dot"@),
        NavSolutionHeader::Cz_dot_y_dot { .. } => Some("cz_dot_y_dot"@),
        NavSolutionHeader::Cz_dot_z_dot { .. } => Some("cz_dot_z_dot"@),
        _ => None,
    }
}

/// The frame that the header of an entry of the covariance names; `None` where it
/// names none, and of any other header.
pub open spec fn column_frame(h: NavSolutionHeader) -> Option<Seq<char>> {
    match h {
        NavSolutionHeader::Cx_x { frame } => text_of(frame),
        NavSolutionHeader::Cy_x { frame } => text_of(frame),
        NavSolutionHeader::Cy_y { frame } => text_of(frame),
        NavSolutionHeader::Cz_x { frame } => text_of(frame),
        NavSolutionHeader::Cz_y { frame } => text_of(frame),
        NavSolutionHeader::Cz_z { frame } => text_of(frame),
        NavSolutionHeader::Cx_dot_x { frame } => text_of(frame),
        NavSolutionHeader::Cx_dot_y { frame } => text_of(frame),
        NavSolutionHeader::Cx_dot_z { frame } => text_of(frame),
        NavSolutionHeader::Cx_dot_x_dot { frame } => text_of(frame),
        NavSolutionHeader::Cy_dot_x { frame } => text_of(frame),
        NavSolutionHeader::Cy_dot_y { frame } => text_of(frame),
        NavSolutionHeader::Cy_dot_z { frame } => text_of(frame),
        NavSolutionHeader::Cy_dot_x_dot { frame } => text_of(frame),
        NavSolutionHeader::Cy_dot_y_dot { frame } => text_of(frame),
        NavSolutionHeader::Cz_dot_x { frame } => text_of(frame),
        NavSolutionHeader::Cz_dot_y { frame } => text_of(frame),
        NavSolutionHeader::Cz_dot_z { frame } => text_of(frame),
        NavSolutionHeader::Cz_dot_x_dot { frame } => text_of(frame),
        NavSolutionHeader::Cz_dot_y_dot { frame } => text_of(frame),
        NavSolutionHeader::Cz_dot_z_dot { frame } => text_of(frame),
        _ => None,
    }
}

/// Whether the header is that of an entry of the covariance.
pub open spec fn is_covariance(h: NavSolutionHeader) -> bool {
    match h {
        NavSolutionHeader::Cx_x { .. } => true,
        NavSolutionHeader::Cy_x { .. } => true,
        NavSolutionHeader::Cy_y { .. } => true,
        NavSolutionHeader::Cz_x { .. } => true,
        NavSolutionHeader::Cz_y { .. } => true,
        NavSolutionHeader::Cz_z { .. } => true,
        NavSolutionHeader::Cx_dot_x { .. } => true,
        NavSolutionHeader::Cx_dot_y { .. } => true,
        NavSolutionHeader::Cx_dot_z { .. } => true,
        NavSolutionHeader::Cx_dot_x_dot { .. } => true,
        NavSolutionHeader::Cy_dot_x { .. } => true,
        NavSolutionHeader::Cy_dot_y { .. } => true,
        NavSolutionHeader::Cy_dot_z { .. } => true,
        NavSolutionHeader::Cy_dot_x_dot { .. } => true,
        NavSolutionHeader::Cy_dot_y_dot { .. } => true,
        NavSolutionHeader::Cz_dot_x { .. } => true,
        NavSolutionHeader::Cz_dot_y { .. } => true,
        NavSolutionHeader::Cz_dot_z { .. } => true,
        NavSolutionHeader::Cz_dot_x_dot { .. } => true,
        NavSolutionHeader::Cz_dot_y_dot { .. } => true,
        NavSolutionHeader::Cz_dot_z_dot { .. } => true,
        _ => false,
    }
}

/// Whether `keyword` is the word of a deviation.
pub open spec fn is_deviation_keyword(keyword: Seq<char>) -> bool {
    keyword == "delta_x"@
        || keyword == "delta_y"@
        || keyword == "delta_z"@
        || keyword == "delta_vx"@
        || keyword == "delta_vy"@
        || keyword == "delta_vz"@
}

/// Whether `keyword` is the word of an entry of the covariance.
pub open spec fn is_covariance_keyword(keyword: Seq<char>) -> bool {
    keyword == "cx_x"@
        || keyword == "cy_x"@
        || keyword == "cy_y"@
        || keyword == "cz_x"@
        || keyword == "cz_y"@
        || keyword == "cz_z"@
        || keyword == "cx_dot_x"@
        || keyword == "cx_dot_y"@
        || keyword == "cx_dot_z"@
        || keyword == "cx_dot_x_dot"@
        || keyword == "cy_dot_x"@
        || keyword == "cy_dot_y"@
        || keyword == "cy_dot_z"@
        || keyword == "cy_dot_x_dot"@
        || keyword == "cy_dot_y_dot"@
        || keyword == "cz_dot_x"@
        || keyword == "cz_dot_y"@
        || keyword == "cz_dot_z"@
        || keyword == "cz_dot_x_dot"@
        || keyword == "cz_dot_y_dot"@
        || keyword == "cz_dot_z_dot"@
}

fn column_word(h: &NavSolutionHeader) -> (r: Option<&'static str>)
    ensures
        r is Some <==> column_keyword(*h) is Some,
        r matches Some(word) ==> column_keyword(*h) == Some(word@),
{
    match h {
        NavSolutionHeader::Delta_x => Some("delta_x"),
        NavSolutionHeader::Delta_y => Some("delta_y"),
        NavSolutionHeader::Delta_z => Some("delta_z"),
        NavSolutionHeader::Delta_vx => Some("delta_vx"),
        NavSolutionHeader::Delta_vy => Some("delta_vy"),
        NavSolutionHeader::Delta_vz => Some("delta_vz"),
        NavSolutionHeader::Cx_x { .. } => Some("cx_x"),
        NavSolutionHeader::Cy_x { .. } => Some("cy_x"),
        NavSolutionHeader::Cy_y { .. } => Some("cy_y"),
        NavSolutionHeader::Cz_x { .. } => Some("cz_x"),
        NavSolutionHeader::Cz_y { .. } => Some("cz_y"),
        NavSolutionHeader::Cz_z { .. } => Some("cz_z"),
        NavSolutionHeader::Cx_dot_x { .. } => Some("cx_dot_x"),
        NavSolutionHeader::Cx_dot_y { .. } => Some("cx_dot_y"),
        NavSolutionHeader::Cx_dot_z { .. } => Some("cx_dot_z"),
        NavSolutionHeader::Cx_dot_x_dot { .. } => Some("cx_dot_x_dot"),
        NavSolutionHeader::Cy_dot_x { .. } => Some("cy_dot_x"),
        NavSolutionHeader::Cy_dot_y { .. } => Some("cy_dot_y"),
        NavSolutionHeader::Cy_dot_z { .. } => Some("cy_dot_z"),
        NavSolutionHeader::Cy_dot_x_dot { .. } => Some("cy_dot_x_dot"),
        NavSolutionHeader::Cy_dot_y_dot { .. } => Some("cy_dot_y_dot"),
        NavSolutionHeader::Cz_dot_x { .. } => Some("cz_dot_x"),
        NavSolutionHeader::Cz_dot_y { .. } => Some("cz_dot_y"),
        NavSolutionHeader::Cz_dot_z { .. } => Some("cz_dot_z"),
        NavSolutionHeader::Cz_dot_x_dot { .. } => Some("cz_dot_x_dot"),
        NavSolutionHeader::Cz_dot_y_dot { .. } => Some("cz_dot_y_dot"),
        NavSolutionHeader::Cz_dot_z_dot { .. } => Some("cz_dot_z_dot"),
        _ => None,
    }
}

fn column_frame_of(h: &NavSolutionHeader) -> (r: &Option<String>)
    requires
        is_covariance(*h),
    ensures
        text_of(*r) == column_frame(*h),
{
    match h {
        NavSolutionHeader::Cx_x { frame } => frame,
        NavSolutionHeader::Cy_x { frame } => frame,
        NavSolutionHeader::Cy_y { frame } => frame,
        NavSolutionHeader::Cz_x { frame } => frame,
        NavSolutionHeader::Cz_y { frame } => frame,
        NavSolutionHeader::Cz_z { frame } => frame,
        NavSolutionHeader::Cx_dot_x { frame } => frame,
        NavSolutionHeader::Cx_dot_y { frame } => frame,
        NavSolutionHeader::Cx_dot_z { frame } => frame,
        NavSolutionHeader::Cx_dot_x_dot { frame } => frame,
        NavSolutionHeader::Cy_dot_x { frame } => frame,
        NavSolutionHeader::Cy_dot_y { frame } => frame,
        NavSolutionHeader::Cy_dot_z { frame } => frame,
        NavSolutionHeader::Cy_dot_x_dot { frame } => frame,
        NavSolutionHeader::Cy_dot_y_dot { frame } => frame,
        NavSolutionHeader::Cz_dot_x { frame } => frame,
        NavSolutionHeader::Cz_dot_y { frame } => frame,
        NavSolutionHeader::Cz_dot_z { frame } => frame,
        NavSolutionHeader::Cz_dot_x_dot { frame } => frame,
        NavSolutionHeader::Cz_dot_y_dot { frame } => frame,
        NavSolutionHeader::Cz_dot_z_dot { frame } => frame,
        _ => vstd::pervasive::unreached(),
    }
}

fn covariance_check(h: &NavSolutionHeader) -> (r: bool)
    ensures
        r == is_covariance(*h),
{
    match h {
        NavSolutionHeader::Cx_x { .. } => true,
        NavSolutionHeader::Cy_x { .. } => true,
        NavSolutionHeader::Cy_y { .. } => true,
        NavSolutionHeader::Cz_x { .. } => true,
        NavSolutionHeader::Cz_y { .. } => true,
        NavSolutionHeader::Cz_z { .. } => true,
        NavSolutionHeader::Cx_dot_x { .. } => true,
        NavSolutionHeader::Cx_dot_y { .. } => true,
        NavSolutionHeader::Cx_dot_z { .. } => true,
        NavSolutionHeader::Cx_dot_x_dot { .. } => true,
        NavSolutionHeader::Cy_dot_x { .. } => true,
        NavSolutionHeader::Cy_dot_y { .. } => true,
        NavSolutionHeader::Cy_dot_z { .. } => true,
        NavSolutionHeader::Cy_dot_x_dot { .. } => true,
        NavSolutionHeader::Cy_dot_y_dot { .. } => true,
        NavSolutionHeader::Cz_dot_x { .. } => true,
        NavSolutionHeader::Cz_dot_y { .. } => true,
        NavSolutionHeader::Cz_dot_z { .. } => true,
        NavSolutionHeader::Cz_dot_x_dot { .. } => true,
        NavSolutionHeader::Cz_dot_y_dot { .. } => true,
        NavSolutionHeader::Cz_dot_z_dot { .. } => true,
        _ => false,
    }
}

/// The header that the word `keyword` names, with the frame `frame` where it is
/// that of an entry of the covariance; `None` where the word names no deviation
/// and no entry of the covariance.
pub fn column_from_keyword(keyword: &str, frame: Option<String>) -> (r: Option<NavSolutionHeader>)
    ensures
        r is Some <==> is_deviation_keyword(keyword@) || is_covariance_keyword(keyword@),
        r matches Some(h) ==> column_keyword(h) == Some(keyword@) && (is_covariance(h)
            ==> column_frame(h) == text_of(frame)),
{
    if text_is(keyword, "delta_x") {
        Some(NavSolutionHeader::Delta_x)
    } else if text_is(keyword, "delta_y") {
        Some(NavSolutionHeader::Delta_y)
    } else if text_is(keyword, "delta_z") {
        Some(NavSolutionHeader::Delta_z)
    } else if text_is(keyword, "delta_vx") {
        Some(NavSolutionHeader::Delta_vx)
    } else if text_is(keyword, "delta_vy") {
        Some(NavSolutionHeader::Delta_vy)
    } else if text_is(keyword, "delta_vz") {
        Some(NavSolutionHeader::Delta_vz)
    } else if text_is(keyword, "cx_x") {
        Some(NavSolutionHeader::Cx_x { frame })
    } else if text_is(keyword, "cy_x") {
        Some(NavSolutionHeader::Cy_x { frame })
    } else if text_is(keyword, "cy_y") {
        Some(NavSolutionHeader::Cy_y { frame })
    } else if text_is(keyword, "cz_x") {
        Some(NavSolutionHeader::Cz_x { frame })
    } else if text_is(keyword, "cz_y") {
        Some(NavSolutionHeader::Cz_y { frame })
    } else if text_is(keyword, "cz_z") {
        Some(NavSolutionHeader::Cz_z { frame })
    } else if text_is(keyword, "cx_dot_x") {
        Some(NavSolutionHeader::Cx_dot_x { frame })
    } else if text_is(keyword, "cx_dot_y") {
        Some(NavSolutionHeader::Cx_dot_y { frame })
    } else if text_is(keyword, "cx_dot_z") {
        Some(NavSolutionHeader::Cx_dot_z { frame })
    } else if text_is(keyword, "cx_dot_x_dot") {
        Some(NavSolutionHeader::Cx_dot_x_dot { frame })
    } else if text_is(keyword, "cy_dot_x") {
        Some(NavSolutionHeader::Cy_dot_x { frame })
    } else if text_is(keyword, "cy_dot_y") {
        Some(NavSolutionHeader::Cy_dot_y { frame })
    } else if text_is(keyword, "cy_dot_z") {
        Some(NavSolutionHeader::Cy_dot_z { frame })
    } else if text_is(keyword, "cy_dot_x_dot") {
        Some(NavSolutionHeader::Cy_dot_x_dot { frame })
    } else if text_is(keyword, "cy_dot_y_dot") {
        Some(NavSolutionHeader::Cy_dot_y_dot { frame })
    } else if text_is(keyword, "cz_dot_x") {
        Some(NavSolutionHeader::Cz_dot_x { frame })
    } else if text_is(keyword, "cz_dot_y") {
        Some(NavSolutionHeader::Cz_dot_y { frame })
    } else if text_is(keyword, "cz_dot_z") {
        Some(NavSolutionHeader::Cz_dot_z { frame })
    } else if text_is(keyword, "cz_dot_x_dot") {
        Some(NavSolutionHeader::Cz_dot_x_dot { frame })
    } else if text_is(keyword, "cz_dot_y_dot") {
        Some(NavSolutionHeader::Cz_dot_y_dot { frame })
    } else if text_is(keyword, "cz_dot_z_dot") {
        Some(NavSolutionHeader::Cz_dot_z_dot { frame })
    } else {
        None
    }
}

/// Where the value of a column of a navigation solution is read.
#[derive(Clone, Copy, Debug, PartialEq, Eq)]
pub enum NavCell {
    /// The epoch of the solution, written in this format
    Epoch(EpochFormat),
    /// The columns of the estimated state
    EstimatedState,
    /// The columns of the nominal state
    NominalState,
    /// The component of the state deviation at this place
    Deviation(usize),
    /// The entry of the covariance in this row and this column
    Covariance(usize, usize),
}

/// The name of the component of the state at place `i`, as the word of an entry
/// of the covariance has it.
pub open spec fn axis_word(i: int) -> Seq<char> {
    if i == 0 {
        "x"@
    } else if i == 1 {
        "y"@
    } else if i == 2 {
        "z"@
    } else if i == 3 {
        "x_dot"@
    } else if i == 4 {
        "y_dot"@
    } else {
        "z_dot"@
    }
}

/// The name of the component of the state at place `i`, as the word of a
/// deviation has it.
pub open spec fn deviation_word(i: int) -> Seq<char> {
    if i == 0 {
        "x"@
    } else if i == 1 {
        "y"@
    } else if i == 2 {
        "z"@
    } else if i == 3 {
        "vx"@
    } else if i == 4 {
        "vy"@
    } else {
        "vz"@
    }
}

/// Where the value of the column of the header `h` is read: a deviation at the
/// place of its component, an entry of the covariance in the row of its first
/// component and the column of its second.
pub open spec fn cell_of(h: NavSolutionHeader) -> NavCell {
    match h {
        NavSolutionHeader::Epoch(format) => NavCell::Epoch(format),
        NavSolutionHeader::EstimatedState(_) => NavCell::EstimatedState,
        NavSolutionHeader::NominalState(_) => NavCell::NominalState,
        NavSolutionHeader::Delta_x => NavCell::Deviation(0),
        NavSolutionHeader::Delta_y => NavCell::Deviation(1),
        NavSolutionHeader::Delta_z => NavCell::Deviation(2),
        NavSolutionHeader::Delta_vx => NavCell::Deviation(3),
        NavSolutionHeader::Delta_vy => NavCell::Deviation(4),
        NavSolutionHeader::Delta_vz => NavCell::Deviation(5),
        NavSolutionHeader::Cx_x { .. } => NavCell::Covariance(0, 0),
        NavSolutionHeader::Cy_x { .. } => NavCell::Covariance(1, 0),
        NavSolutionHeader::Cy_y { .. } => NavCell::Covariance(1, 1),
        NavSolutionHeader::Cz_x { .. } => NavCell::Covariance(2, 0),
        NavSolutionHeader::Cz_y { .. } => NavCell::Covariance(2, 1),
        NavSolutionHeader::Cz_z { .. } => NavCell::Covariance(2, 2),
        NavSolutionHeader::Cx_dot_x { .. } => NavCell::Covariance(3, 0),
        NavSolutionHeader::Cx_dot_y { .. } => NavCell::Covariance(3, 1),
        NavSolutionHeader::Cx_dot_z { .. } => NavCell::Covariance(3, 2),
        NavSolutionHeader::Cx_dot_x_dot { .. } => NavCell::Covariance(3, 3),
        NavSolutionHeader::Cy_dot_x { .. } => NavCell::Covariance(4, 0),
        NavSolutionHeader::Cy_dot_y { .. } => NavCell::Covariance(4, 1),
        NavSolutionHeader::Cy_dot_z { .. } => NavCell::Covariance(4, 2),
        NavSolutionHeader::Cy_dot_x_dot { .. } => NavCell::Covariance(4, 3),
        NavSolutionHeader::Cy_dot_y_dot { .. } => NavCell::Covariance(4, 4),
        NavSolutionHeader::Cz_dot_x { .. } => NavCell::Covariance(5, 0),
        NavSolutionHeader::Cz_dot_y { .. } => NavCell::Covariance(5, 1),
        NavSolutionHeader::Cz_dot_z { .. } => NavCell::Covariance(5, 2),
        NavSolutionHeader::Cz_dot_x_dot { .. } => NavCell::Covariance(5, 3),
        NavSolutionHeader::Cz_dot_y_dot { .. } => NavCell::Covariance(5, 4),
        NavSolutionHeader::Cz_dot_z_dot { .. } => NavCell::Covariance(5, 5),
    }
}

impl NavSolutionHeader {
    /// Where the value of the column is read.
    pub fn cell(&self) -> (r: NavCell)
        ensures
            r == cell_of(*self),
    {
        match self {
            NavSolutionHeader::Epoch(format) => NavCell::Epoch(*format),
            NavSolutionHeader::EstimatedState(_) => NavCell::EstimatedState,
            NavSolutionHeader::NominalState(_) => NavCell::NominalState,
            NavSolutionHeader::Delta_x => NavCell::Deviation(0),
            NavSolutionHeader::Delta_y => NavCell::Deviation(1),
            NavSolutionHeader::Delta_z => NavCell::Deviation(2),
            NavSolutionHeader::Delta_vx => NavCell::Deviation(3),
            NavSolutionHeader::Delta_vy => NavCell::Deviation(4),
            NavSolutionHeader::Delta_vz => NavCell::Deviation(5),
            NavSolutionHeader::Cx_x { .. } => NavCell::Covariance(0, 0),
            NavSolutionHeader::Cy_x { .. } => NavCell::Covariance(1, 0),
            NavSolutionHeader::Cy_y { .. } => NavCell::Covariance(1, 1),
            NavSolutionHeader::Cz_x { .. } => NavCell::Covariance(2, 0),
            NavSolutionHeader::Cz_y { .. } => NavCell::Covariance(2, 1),
            NavSolutionHeader::Cz_z { .. } => NavCell::Covariance(2, 2),
            NavSolutionHeader::Cx_dot_x { .. } => NavCell::Covariance(3, 0),
            NavSolutionHeader::Cx_dot_y { .. } => NavCell::Covariance(3, 1),
            NavSolutionHeader::Cx_dot_z { .. } => NavCell::Covariance(3, 2),
            NavSolutionHeader::Cx_dot_x_dot { .. } => NavCell::Covariance(3, 3),
            NavSolutionHeader::Cy_dot_x { .. } => NavCell::Covariance(4, 0),
            NavSolutionHeader::Cy_dot_y { .. } => NavCell::Covariance(4, 1),
            NavSolutionHeader::Cy_dot_z { .. } => NavCell::Covariance(4, 2),
            NavSolutionHeader::Cy_dot_x_dot { .. } => NavCell::Covariance(4, 3),
            NavSolutionHeader::Cy_dot_y_dot { .. } => NavCell::Covariance(4, 4),
            NavSolutionHeader::Cz_dot_x { .. } => NavCell::Covariance(5, 0),
            NavSolutionHeader::Cz_dot_y { .. } => NavCell::Covariance(5, 1),
            NavSolutionHeader::Cz_dot_z { .. } => NavCell::Covariance(5, 2),
            NavSolutionHeader::Cz_dot_x_dot { .. } => NavCell::Covariance(5, 3),
            NavSolutionHeader::Cz_dot_y_dot { .. } => NavCell::Covariance(5, 4),
            NavSolutionHeader::Cz_dot_z_dot { .. } => NavCell::Covariance(5, 5),
        }
    }
}

/// The word of a header names the cell of its column: that of a deviation is
/// `delta_` and the component at the place of the cell, that of an entry of the
/// covariance is `c`, the component of its row, `_` and the component of its
/// column. The entries lie in the lower triangle of a matrix of six rows, and a
/// header of an epoch or of a state has no word.
pub proof fn lemma_cell_words(h: NavSolutionHeader)
    ensures
        match cell_of(h) {
            NavCell::Deviation(i) => i < 6 && !is_covariance(h) && column_keyword(h) == Some(
                "delta_"@ + deviation_word(i as int),
            ),
            NavCell::Covariance(i, j) => j <= i < 6 && is_covariance(h) && column_keyword(h)
                == Some("c"@ + axis_word(i as int) + "_"@ + axis_word(j as int)),
            _ => !is_covariance(h) && column_keyword(h) is None,
        },
{
    reveal_strlit("c");
    reveal_strlit("_");
    reveal_strlit("delta_");
    reveal_strlit("vx");
    reveal_strlit("vy");
    reveal_strlit("vz");
    reveal_strlit("x");
    reveal_strlit("x_dot");
    reveal_strlit("y");
    reveal_strlit("y_dot");
    reveal_strlit("z");
    reveal_strlit("z_dot");
    match h {
        NavSolutionHeader::Delta_x => {
            reveal_strlit("delta_x");
            assert("delta_x"@ =~= "delta_"@ + deviation_word(0));
        },
        NavSolutionHeader::Delta_y => {
            reveal_strlit("delta_y");
            assert("delta_y"@ =~= "delta_"@ + deviation_word(1));
        },
        NavSolutionHeader::Delta_z => {
            reveal_strlit("delta_z");
            assert("delta_z"@ =~= "delta_"@ + deviation_word(2));
        },
        NavSolutionHeader::Delta_vx => {
            reveal_strlit("delta_vx");
            assert("delta_vx"@ =~= "delta_"@ + deviation_word(3));
        },
        NavSolutionHeader::Delta_vy => {
            reveal_strlit("delta_vy");
            assert("delta_vy"@ =~= "delta_"@ + deviation_word(4));
        },
        NavSolutionHeader::Delta_vz => {
            reveal_strlit("delta_vz");
            assert("delta_vz"@ =~= "delta_"@ + deviation_word(5));
        },
        NavSolutionHeader::Cx_x { .. } => {
            reveal_strlit("cx_x");
            assert("cx_x"@ =~= "c"@ + axis_word(0) + "_"@ + axis_word(0));
        },
        NavSolutionHeader::Cy_x { .. } => {
            reveal_strlit("cy_x");
            assert("cy_x"@ =~= "c"@ + axis_word(1) + "_"@ + axis_word(0));
        },
        NavSolutionHeader::Cy_y { .. } => {
            reveal_strlit("cy_y");
            assert("cy_y"@ =~= "c"@ + axis_word(1) + "_"@ + axis_word(1));
        },
        NavSolutionHeader::Cz_x { .. } => {
            reveal_strlit("cz_x");
            assert("cz_x"@ =~= "c"@ + axis_word(2) + "_"@ + axis_word(0));
        },
        NavSolutionHeader::Cz_y { .. } => {
            reveal_strlit("cz_y");
            assert("cz_y"@ =~= "c"@ + axis_word(2) + "_"@ + axis_word(1));
        },
        NavSolutionHeader::Cz_z { .. } => {
            reveal_strlit("cz_z");
            assert("cz_z"@ =~= "c"@ + axis_word(2) + "_"@ + axis_word(2));
        },
        NavSolutionHeader::Cx_dot_x { .. } => {
            reveal_strlit("cx_dot_x");
            assert("cx_dot_x"@ =~= "c"@ + axis_word(3) + "_"@ + axis_word(0));
        },
        NavSolutionHeader::Cx_dot_y { .. } => {
            reveal_strlit("cx_dot_y");
            assert("cx_dot_y"@ =~= "c"@ + axis_word(3) + "_"@ + axis_word(1));
        },
        NavSolutionHeader::Cx_dot_z { .. } => {
            reveal_strlit("cx_dot_z");
            assert("cx_dot_z"@ =~= "c"@ + axis_word(3) + "_"@ + axis_word(2));
        },
        NavSolutionHeader::Cx_dot_x_dot { .. } => {
            reveal_strlit("cx_dot_x_dot");
            assert("cx_dot_x_dot"@ =~= "c"@ + axis_word(3) + "_"@ + axis_word(3));
        },
        NavSolutionHeader::Cy_dot_x { .. } => {
            reveal_strlit("cy_dot_x");
            assert("cy_dot_x"@ =~= "c"@ + axis_word(4) + "_"@ + axis_word(0));
        },
        NavSolutionHeader::Cy_dot_y { .. } => {
            reveal_strlit("cy_dot_y");
            assert("cy_dot_y"@ =~= "c"@ + axis_word(4) + "_"@ + axis_word(1));
        },
        NavSolutionHeader::Cy_dot_z { .. } => {
            reveal_strlit("cy_dot_z");
            assert("cy_dot_z"@ =~= "c"@ + axis_word(4) + "_"@ + axis_word(2));
        },
        NavSolutionHeader::Cy_dot_x_dot { .. } => {
            reveal_strlit("cy_dot_x_dot");
            assert("cy_dot_x_dot"@ =~= "c"@ + axis_word(4) + "_"@ + axis_word(3));
        },
        NavSolutionHeader::Cy_dot_y_dot { .. } => {
            reveal_strlit("cy_dot_y_dot");
            assert("cy_dot_y_dot"@ =~= "c"@ + axis_word(4) + "_"@ + axis_word(4));
        },
        NavSolutionHeader::Cz_dot_x { .. } => {
            reveal_strlit("cz_dot_x");
            assert("cz_dot_x"@ =~= "c"@ + axis_word(5) + "_"@ + axis_word(0));
        },
        NavSolutionHeader::Cz_dot_y { .. } => {
            reveal_strlit("cz_dot_y");
            assert("cz_dot_y"@ =~= "c"@ + axis_word(5) + "_"@ + axis_word(1));
        },
        NavSolutionHeader::Cz_dot_z { .. } => {
            reveal_strlit("cz_dot_z");
            assert("cz_dot_z"@ =~= "c"@ + axis_word(5) + "_"@ + axis_word(2));
        },
        NavSolutionHeader::Cz_dot_x_dot { .. } => {
            reveal_strlit("cz_dot_x_dot");
            assert("cz_dot_x_dot"@ =~= "c"@ + axis_word(5) + "_"@ + axis_word(3));
        },
        NavSolutionHeader::Cz_dot_y_dot { .. } => {
            reveal_strlit("cz_dot_y_dot");
            assert("cz_dot_y_dot"@ =~= "c"@ + axis_word(5) + "_"@ + axis_word(4));
        },
        NavSolutionHeader::Cz_dot_z_dot { .. } => {
            reveal_strlit("cz_dot_z_dot");
            assert("cz_dot_z_dot"@ =~= "c"@ + axis_word(5) + "_"@ + axis_word(5));
        },
        _ => {},
    }
}

/// The texts of the headers `h` of a state, each behind the word `prefix`.
pub open spec fn prefixed(prefix: Seq<char>, h: Seq<StateHeader>) -> Seq<Seq<char>> {
    h.map_values(|x: StateHeader| prefix + header_text(x@))
}

/// The texts `parts` one after the other, with the character `sep` between each
/// two of them.
pub open spec fn joined(parts: Seq<Seq<char>>, sep: char) -> Seq<char>
    decreases parts.len(),
{
    if parts.len() == 0 {
        Seq::<char>::empty()
    } else if parts.len() == 1 {
        parts[0]
    } else {
        joined(parts.drop_last(), sep).push(sep) + parts.last()
    }
}

/// The texts of the columns of a header: one for each header of a state, and one
/// of any other header, which is its word and the frame or format that it names.
pub open spec fn column_texts(h: NavSolutionHeader) -> Seq<Seq<char>> {
    match h {
        NavSolutionHeader::Epoch(format) => seq!["Epoch:"@ + format.spec_name()],
        NavSolutionHeader::EstimatedState(headers) => prefixed("Estimate:"@, headers@),
        NavSolutionHeader::NominalState(headers) => prefixed("Nominal:"@, headers@),
        _ => seq![
            column_keyword(h)->0 + match column_frame(h) {
                Some(frame) => ":"@ + frame,
                None => ""@,
            },
        ],
    }
}

/// The text of a header: the texts of its columns with commas between them.
pub open spec fn nav_header_text(h: NavSolutionHeader) -> Seq<char> {
    joined(column_texts(h), ',')
}

fn prefixed_texts(prefix: &str, headers: &Vec<StateHeader>) -> (r: Vec<String>)
    ensures
        texts(r@) == prefixed(prefix@, headers@),
{
    let mut r: Vec<String> = Vec::with_capacity(headers.len());
    let mut i: usize = 0;
    while i < headers.len()
        invariant
            i <= headers@.len(),
            r@.len() == i,
            forall|k: int| 0 <= k < i ==> (#[trigger] r@[k])@ == prefix@ + header_text(headers@[k]@),
        decreases headers@.len() - i,
    {
        let text = headers[i].to_string();
        r.push(String::from_str(prefix).concat(text.as_str()));
        i = i + 1;
    }
    assert(texts(r@) =~= prefixed(prefix@, headers@));
    r
}

/// The texts `parts` one after the other, with commas between them.
fn join_commas(parts: &Vec<String>) -> (r: String)
    ensures
        r@ == joined(texts(parts@), ','),
{
    let ghost t = texts(parts@);
    let mut r = String::new();
    let mut i: usize = 0;
    assert(t.subrange(0, 0) =~= Seq::<Seq<char>>::empty());
    while i < parts.len()
        invariant
            i <= parts@.len(),
            t == texts(parts@),
            r@ == joined(t.subrange(0, i as int), ','),
        decreases parts@.len() - i,
    {
        proof {
            let next = t.subrange(0, i as int + 1);
            assert(next.drop_last() == t.subrange(0, i as int));
            assert(next.last() == parts@[i as int]@);
            reveal_strlit(",");
            assert(","@ =~= seq![',']);
            if i == 0 {
                assert(r@ =~= Seq::<char>::empty());
                assert(r@ + parts@[0]@ =~= parts@[0]@);
            } else {
                assert(r@ + ","@ =~= r@.push(','));
            }
        }
        if i > 0 {
            r.append(",");
        }
        r.append(parts[i].as_str());
        i = i + 1;
    }
    assert(t.subrange(0, i as int) == t);
    r
}

impl NavSolutionHeader {
    /// The texts of the columns of the header.
    pub fn columns(&self) -> (r: Vec<String>)
        ensures
            texts(r@) == column_texts(*self),
    {
        match self {
            NavSolutionHeader::Epoch(format) => {
                let name = format.name();
                let mut r: Vec<String> = Vec::with_capacity(1);
                r.push(String::from_str("Epoch:").concat(name.as_str()));
                assert(texts(r@) =~= column_texts(*self));
                r
            },
            NavSolutionHeader::EstimatedState(headers) => prefixed_texts("Estimate:", headers),
            NavSolutionHeader::NominalState(headers) => prefixed_texts("Nominal:", headers),
            _ => {
                let word = match column_word(self) {
                    Some(word) => word,
                    None => vstd::pervasive::unreached(),
                };
                let mut text = String::from_str(word);
                if covariance_check(self) {
                    match column_frame_of(self) {
                        Some(frame) => {
                            text.append(":");
                            text.append(frame.as_str());
                            assert(text@ =~= word@ + (":"@ + frame@));
                        },
                        None => {
                            proof {
                                reveal_strlit("");
                                assert(text@ + ""@ =~= text@);
                            }
                        },
                    }
                } else {
                    proof {
                        reveal_strlit("");
                        assert(text@ + ""@ =~= text@);
                    }
                }
                let mut r: Vec<String> = Vec::with_capacity(1);
                r.push(text);
                assert(texts(r@) =~= column_texts(*self));
                r
            },
        }
    }

    /// The text of the header.
    pub fn to_string(&self) -> (r: String)
        ensures
            r@ == nav_header_text(*self),
    {
        let columns = self.columns();
        join_commas(&columns)
    }
}

/// What the text of a header of a navigation solution stands for.
pub enum NavItem {
    /// The epoch, in this format
    Epoch(EpochFormat),
    /// The deviation or the entry of the covariance of this word, in this frame
    Column(Seq<char>, Option<Seq<char>>),
    /// This parameter of the estimated state
    Estimate(StateHeaderView),
    /// This parameter of the nominal state
    Nominal(StateHeaderView),
    /// Nothing that is known
    Unknown,
}

/// What the text `t` of a header of a navigation solution stands for, where the
/// text is in lower case. It is read in the parts between its colons. Behind the
/// word `epoch` stands the format of the epoch, which is that of Gregorian dates
/// in UTC where the text has no second part; behind `estimate` and `nominal`
/// stands a parameter of the state; any other word is that of a deviation or of
/// an entry of the covariance. A third part names a frame.
pub open spec fn nav_item_of(t: Seq<char>) -> NavItem {
    let parts = split_at(t, ':');
    let frame = if parts.len() == 3 {
        Some(parts[2])
    } else {
        None
    };
    let keyword = parts[0];
    if keyword == "epoch"@ {
        if parts.len() == 2 {
            match EpochFormat::named(parts[1]) {
                Some(format) => NavItem::Epoch(format),
                None => NavItem::Unknown,
            }
        } else {
            NavItem::Epoch(EpochFormat::GregorianUtc)
        }
    } else if is_deviation_keyword(keyword) || is_covariance_keyword(keyword) {
        NavItem::Column(keyword, frame)
    } else if keyword == "estimate"@ || keyword == "nominal"@ {
        if parts.len() >= 2 {
            match StateParameter::named(parts[1]) {
                Some(param) => {
                    let header = StateHeaderView { param, frame_name: frame, epoch_fmt: None };
                    if keyword == "estimate"@ {
                        NavItem::Estimate(header)
                    } else {
                        NavItem::Nominal(header)
                    }
                },
                None => NavItem::Unknown,
            }
        } else {
            NavItem::Unknown
        }
    } else {
        NavItem::Unknown
    }
}

/// What the text `t` of a header of a navigation solution stands for: what it
/// stands for in lower case.
pub open spec fn parsed_nav_item(t: Seq<char>) -> NavItem {
    nav_item_of(lowercase(t))
}

/// Whether the item is a column of its own: the epoch, a deviation or an entry of
/// the covariance.
pub open spec fn is_plain(item: NavItem) -> bool {
    item is Epoch || item is Column
}

/// Whether the header `h` is the one that the plain item `item` stands for.
pub open spec fn is_header_of(h: NavSolutionHeader, item: NavItem) -> bool {
    match item {
        NavItem::Epoch(format) => h == NavSolutionHeader::Epoch(format),
        NavItem::Column(keyword, frame) => column_keyword(h) == Some(keyword) && (is_covariance(h)
            ==> column_frame(h) == frame),
        _ => false,
    }
}

/// The number of the first `n` texts of `t` that stand for a column of their own.
pub open spec fn plain_count(t: Seq<String>, n: int) -> int
    decreases n,
{
    if n <= 0 {
        0
    } else {
        plain_count(t, n - 1) + if is_plain(parsed_nav_item(t[n - 1]@)) {
            1int
        } else {
            0int
        }
    }
}

/// The number of the first `n` texts of `t` that stand for a parameter of the
/// estimated state.
pub open spec fn estimate_count(t: Seq<String>, n: int) -> int
    decreases n,
{
    if n <= 0 {
        0
    } else {
        estimate_count(t, n - 1) + if parsed_nav_item(t[n - 1]@) is Estimate {
            1int
        } else {
            0int
        }
    }
}

/// The number of the first `n` texts of `t` that stand for a parameter of the
/// nominal state.
pub open spec fn nominal_count(t: Seq<String>, n: int) -> int
    decreases n,
{
    if n <= 0 {
        0
    } else {
        nominal_count(t, n - 1) + if parsed_nav_item(t[n - 1]@) is Nominal {
            1int
        } else {
            0int
        }
    }
}

/// The number of the first `n` texts of `t` that have three parts, and so name a
/// frame.
pub open spec fn frame_count(t: Seq<String>, n: int) -> int
    decreases n,
{
    if n <= 0 {
        0
    } else {
        frame_count(t, n - 1) + if split_at(lowercase(t[n - 1]@), ':').len() == 3 {
            1int
        } else {
            0int
        }
    }
}

/// Whether each of the texts `t` stands for something that is known.
pub open spec fn all_nav_headers(t: Seq<String>) -> bool {
    forall|i: int| 0 <= i < t.len() ==> !(parsed_nav_item((#[trigger] t[i])@) is Unknown)
}

/// Whether `plain`, `estimated`, `nominal` and `frames` are what the first `n`
/// texts of `t` stand for, each kind in the order of the texts.
pub open spec fn nav_headers_match(
    t: Seq<String>,
    n: int,
    plain: Seq<NavSolutionHeader>,
    estimated: Seq<StateHeader>,
    nominal: Seq<StateHeader>,
    frames: Seq<String>,
) -> bool {
    &&& plain.len() == plain_count(t, n)
    &&& estimated.len() == estimate_count(t, n)
    &&& nominal.len() == nominal_count(t, n)
    &&& frames.len() == frame_count(t, n)
    &&& forall|i: int|
        0 <= i < n && is_plain(parsed_nav_item((#[trigger] t[i])@)) ==> is_header_of(
            plain[plain_count(t, i)],
            parsed_nav_item(t[i]@),
        )
    &&& forall|i: int|
        0 <= i < n && parsed_nav_item((#[trigger] t[i])@) is Estimate ==> parsed_nav_item(t[i]@)
            == NavItem::Estimate(estimated[estimate_count(t, i)]@)
    &&& forall|i: int|
        0 <= i < n && parsed_nav_item((#[trigger] t[i])@) is Nominal ==> parsed_nav_item(t[i]@)
            == NavItem::Nominal(nominal[nominal_count(t, i)]@)
    &&& forall|i: int|
        0 <= i < n && split_at(lowercase((#[trigger] t[i])@), ':').len() == 3 ==> frames[frame_count(
            t,
            i,
        )]@ == split_at(lowercase(t[i]@), ':')[2]
}

/// How navigation solutions are written: the file, the headers of its columns,
/// and the formatters of the estimated and of the nominal state.
#[derive(Clone, Debug)]
pub struct NavSolutionFormatter {
    pub filename: String,
    pub headers: Vec<NavSolutionHeader>,
    pub estimated_headers: StateFormatter,
    pub nominal_headers: StateFormatter,
    /// The frames that the headers name, in the order of the headers
    pub frame_names: Vec<String>,
}

/// The headers of the default columns of the estimated state: the position and
/// the velocity.
pub open spec fn default_estimate_headers() -> Seq<StateHeader> {
    seq![
        header_of(StateParameter::X),
        header_of(StateParameter::Y),
        header_of(StateParameter::Z),
        header_of(StateParameter::VX),
        header_of(StateParameter::VY),
        header_of(StateParameter::VZ),
    ]
}

/// One of the headers `h` of a navigation solution, as far as it has no texts of
/// its own.
pub enum PlainHeader {
    Epoch(EpochFormat),
    Column(Seq<char>),
    Estimated(Seq<StateHeader>),
    Nominal(Seq<StateHeader>),
}

/// What the header `h` is, without the frame that it may name.
pub open spec fn plain_header(h: NavSolutionHeader) -> PlainHeader {
    match h {
        NavSolutionHeader::Epoch(format) => PlainHeader::Epoch(format),
        NavSolutionHeader::EstimatedState(headers) => PlainHeader::Estimated(headers@),
        NavSolutionHeader::NominalState(headers) => PlainHeader::Nominal(headers@),
        _ => PlainHeader::Column(column_keyword(h)->0),
    }
}

/// The default columns of a navigation solution: the epoch as a Gregorian date in
/// TAI, the deviations, the variances and the estimated state.
pub open spec fn default_nav_headers() -> Seq<PlainHeader> {
    seq![
        PlainHeader::Epoch(EpochFormat::GregorianTai),
        PlainHeader::Column("delta_x"@),
        PlainHeader::Column("delta_y"@),
        PlainHeader::Column("delta_z"@),
        PlainHeader::Column("delta_vx"@),
        PlainHeader::Column("delta_vy"@),
        PlainHeader::Column("delta_vz"@),
        PlainHeader::Column("cx_x"@),
        PlainHeader::Column("cy_y"@),
        PlainHeader::Column("cz_z"@),
        PlainHeader::Column("cx_dot_x_dot"@),
        PlainHeader::Column("cy_dot_y_dot"@),
        PlainHeader::Column("cz_dot_z_dot"@),
        PlainHeader::Estimated(default_estimate_headers()),
    ]
}

/// What is read of one text of a header of a navigation solution.
#[derive(Clone, Debug, PartialEq, Eq)]
pub enum NavParsed {
    /// The header of a column of its own
    Plain(NavSolutionHeader),
    /// The header of a parameter of the estimated state
    Estimate(StateHeader),
    /// The header of a parameter of the nominal state
    Nominal(StateHeader),
}

/// Whether `parsed` and `frame` are what the text `t`, which is in lower case,
/// stands for: the header, and the frame that a third part of the text names.
pub open spec fn is_parsed_from(parsed: NavParsed, frame: Option<String>, t: Seq<char>) -> bool {
    let parts = split_at(t, ':');
    let item = nav_item_of(t);
    &&& frame is Some <==> parts.len() == 3
    &&& frame matches Some(name) ==> name@ == parts[2]
    &&& match parsed {
        NavParsed::Plain(h) => is_plain(item) && is_header_of(h, item),
        NavParsed::Estimate(h) => item == NavItem::Estimate(h@),
        NavParsed::Nominal(h) => item == NavItem::Nominal(h@),
    }
}

fn copy_text(text: &Option<String>) -> (r: Option<String>)
    ensures
        r == *text,
{
    match text {
        Some(t) => Some(t.clone()),
        None => None,
    }
}

fn copy_headers(headers: &Vec<StateHeader>) -> (r: Vec<StateHeader>)
    ensures
        r@ == headers@,
{
    let mut r: Vec<StateHeader> = Vec::with_capacity(headers.len());
    let mut i: usize = 0;
    while i < headers.len()
        invariant
            i <= headers@.len(),
            r@ == headers@.subrange(0, i as int),
        decreases headers@.len() - i,
    {
        let h = &headers[i];
        r.push(
            StateHeader { param: h.param, frame_name: copy_text(&h.frame_name), epoch_fmt: h.epoch_fmt },
        );
        assert(r@ == headers@.subrange(0, i as int + 1));
        i = i + 1;
    }
    assert(headers@.subrange(0, i as int) == headers@);
    r
}

/// What the text `lowered` of a header of a navigation solution stands for, which
/// is in lower case, and the frame that its third part names; `None` where it
/// stands for nothing that is known.
pub fn parse_lowered_nav_header(lowered: &str) -> (r: Option<(NavParsed, Option<String>)>)
    ensures
        r is Some <==> !(nav_item_of(lowered@) is Unknown),
        r matches Some(p) ==> is_parsed_from(p.0, p.1, lowered@),
{
    let parts = split_colons(lowered);
    proof {
        lemma_split_at_len(lowered@, ':');
        assert(texts(parts@).len() == parts@.len());
        assert forall|k: int| 0 <= k < parts@.len() implies texts(parts@)[k] == (
        #[trigger] parts@[k])@ by {
        }
        assert(texts(parts@)[0] == parts@[0]@);
    }
    let frame: Option<String> = if parts.len() == 3 {
        Some(parts[2].clone())
    } else {
        None
    };
    let keyword = parts[0].as_str();
    if text_is(keyword, "epoch") {
        let format = if parts.len() == 2 {
            match EpochFormat::from_keyword(parts[1].as_str()) {
                Some(format) => format,
                None => {
                    return None;
                },
            }
        } else {
            EpochFormat::GregorianUtc
        };
        return Some((NavParsed::Plain(NavSolutionHeader::Epoch(format)), frame));
    }
    match column_from_keyword(keyword, copy_text(&frame)) {
        Some(header) => {
            return Some((NavParsed::Plain(header), frame));
        },
        None => {},
    }
    let estimate = text_is(keyword, "estimate");
    if estimate || text_is(keyword, "nominal") {
        if parts.len() < 2 {
            return None;
        }
        match StateParameter::from_keyword(parts[1].as_str()) {
            Some(param) => {
                let header = StateHeader { param, frame_name: copy_text(&frame), epoch_fmt: None };
                if estimate {
                    Some((NavParsed::Estimate(header), frame))
                } else {
                    Some((NavParsed::Nominal(header), frame))
                }
            },
            None => None,
        }
    } else {
        None
    }
}

/// What the text `text` of a header of a navigation solution stands for, in upper
/// or lower case, and the frame that its third part names; the error of loading
/// where it stands for nothing that is known.
pub fn parse_nav_header(text: &str) -> (r: Result<(NavParsed, Option<String>), NyxError>)
    ensures
        r is Ok <==> !(parsed_nav_item(text@) is Unknown),
        r matches Ok(p) ==> is_parsed_from(p.0, p.1, lowercase(text@)),
        r matches Err(e) ==> e matches NyxError::LoadingError(what) && what@ == text@,
{
    let lowered = to_lower(text);
    match parse_lowered_nav_header(lowered.as_str()) {
        Some(parsed) => Ok(parsed),
        None => Err(NyxError::LoadingError(text.to_owned())),
    }
}

/// Each count of the first `n` texts is at least that of the first `k` of them.
proof fn lemma_counts_grow(t: Seq<String>, k: int, n: int)
    requires
        0 <= k <= n,
    ensures
        plain_count(t, k) <= plain_count(t, n),
        estimate_count(t, k) <= estimate_count(t, n),
        nominal_count(t, k) <= nominal_count(t, n),
        frame_count(t, k) <= frame_count(t, n),
        0 <= plain_count(t, k),
        0 <= estimate_count(t, k),
        0 <= nominal_count(t, k),
        0 <= frame_count(t, k),
    decreases n,
{
    if k < n {
        lemma_counts_grow(t, k, n - 1);
    } else if n > 0 {
        lemma_counts_grow(t, k - 1, n - 1);
    }
}

proof fn lemma_nav_step(
    t: Seq<String>,
    i: int,
    plain: Seq<NavSolutionHeader>,
    estimated: Seq<StateHeader>,
    nominal: Seq<StateHeader>,
    frames: Seq<String>,
    parsed: NavParsed,
    frame: Option<String>,
)
    requires
        0 <= i < t.len(),
        nav_headers_match(t, i, plain, estimated, nominal, frames),
        is_parsed_from(parsed, frame, lowercase(t[i]@)),
    ensures
        nav_headers_match(
            t,
            i + 1,
            match parsed {
                NavParsed::Plain(h) => plain.push(h),
                _ => plain,
            },
            match parsed {
                NavParsed::Estimate(h) => estimated.push(h),
                _ => estimated,
            },
            match parsed {
                NavParsed::Nominal(h) => nominal.push(h),
                _ => nominal,
            },
            match frame {
                Some(name) => frames.push(name),
                None => frames,
            },
        ),
{
    let plain2 = match parsed {
        NavParsed::Plain(h) => plain.push(h),
        _ => plain,
    };
    let estimated2 = match parsed {
        NavParsed::Estimate(h) => estimated.push(h),
        _ => estimated,
    };
    let nominal2 = match parsed {
        NavParsed::Nominal(h) => nominal.push(h),
        _ => nominal,
    };
    let frames2 = match frame {
        Some(name) => frames.push(name),
        None => frames,
    };
    assert forall|k: int| 0 <= k < i + 1 && is_plain(parsed_nav_item((#[trigger] t[k])@)) implies is_header_of(
        plain2[plain_count(t, k)],
        parsed_nav_item(t[k]@),
    ) by {
        lemma_counts_grow(t, k, k);
        if k < i {
            lemma_counts_grow(t, k + 1, i);
            assert(plain2[plain_count(t, k)] == plain[plain_count(t, k)]);
        }
    }
    assert forall|k: int|
        0 <= k < i + 1 && parsed_nav_item((#[trigger] t[k])@) is Estimate implies parsed_nav_item(
        t[k]@,
    ) == NavItem::Estimate(estimated2[estimate_count(t, k)]@) by {
        lemma_counts_grow(t, k, k);
        if k < i {
            lemma_counts_grow(t, k + 1, i);
            assert(estimated2[estimate_count(t, k)] == estimated[estimate_count(t, k)]);
        }
    }
    assert forall|k: int|
        0 <= k < i + 1 && parsed_nav_item((#[trigger] t[k])@) is Nominal implies parsed_nav_item(
        t[k]@,
    ) == NavItem::Nominal(nominal2[nominal_count(t, k)]@) by {
        lemma_counts_grow(t, k, k);
        if k < i {
            lemma_counts_grow(t, k + 1, i);
            assert(nominal2[nominal_count(t, k)] == nominal[nominal_count(t, k)]);
        }
    }
    assert forall|k: int|
        0 <= k < i + 1 && split_at(lowercase((#[trigger] t[k])@), ':').len() == 3 implies frames2[frame_count(
        t,
        k,
    )]@ == split_at(lowercase(t[k]@), ':')[2] by {
        lemma_counts_grow(t, k, k);
        if k < i {
            lemma_counts_grow(t, k + 1, i);
            assert(frames2[frame_count(t, k)] == frames[frame_count(t, k)]);
        }
    }
}

/// Whether the last two of the headers `h` are those of the estimated state
/// `estimated` and of the nominal state `nominal`.
pub open spec fn ends_with_states(
    h: Seq<NavSolutionHeader>,
    estimated: Seq<StateHeader>,
    nominal: Seq<StateHeader>,
) -> bool {
    &&& h.len() >= 2
    &&& h[h.len() - 2] matches NavSolutionHeader::EstimatedState(e)
    &&& e@ == estimated
    &&& h[h.len() - 1] matches NavSolutionHeader::NominalState(n)
    &&& n@ == nominal
}

impl NavSolutionFormatter {
    /// The formatter of the columns that the texts `headers` stand for, into the
    /// file `filename`: the columns of the epoch, of the deviations and of the
    /// covariance in the order of the texts, then the estimated and the nominal
    /// state with their parameters in the order of the texts. The error of loading
    /// where one of the texts stands for nothing that is known.
    pub fn from_headers(headers: &Vec<String>, filename: String) -> (r: Result<
        NavSolutionFormatter,
        NyxError,
    >)
        ensures
            r is Ok <==> all_nav_headers(headers@),
            r matches Ok(f) ==> f.filename == filename && ends_with_states(
                f.headers@,
                f.estimated_headers.headers@,
                f.nominal_headers.headers@,
            ) && f.estimated_headers.filename@ == "file_should_not_exist"@
                && f.nominal_headers.filename@ == "file_should_not_exist"@ && nav_headers_match(
                headers@,
                headers@.len() as int,
                f.headers@.subrange(0, f.headers@.len() - 2),
                f.estimated_headers.headers@,
                f.nominal_headers.headers@,
                f.frame_names@,
            ),
            r matches Err(e) ==> e is LoadingError,
    {
        let mut plain: Vec<NavSolutionHeader> = Vec::new();
        let mut estimated: Vec<StateHeader> = Vec::new();
        let mut nominal: Vec<StateHeader> = Vec::new();
        let mut frames: Vec<String> = Vec::new();
        let ghost t = headers@;
        let mut i: usize = 0;
        while i < headers.len()
            invariant
                i <= t.len(),
                t == headers@,
                nav_headers_match(t, i as int, plain@, estimated@, nominal@, frames@),
                forall|k: int| 0 <= k < i ==> !(parsed_nav_item((#[trigger] t[k])@) is Unknown),
            decreases t.len() - i,
        {
            match parse_nav_header(headers[i].as_str()) {
                Ok((parsed, frame)) => {
                    proof {
                        lemma_nav_step(t, i as int, plain@, estimated@, nominal@, frames@, parsed, frame);
                    }
                    match frame {
                        Some(name) => {
                            frames.push(name);
                        },
                        None => {},
                    }
                    match parsed {
                        NavParsed::Plain(header) => {
                            plain.push(header);
                        },
                        NavParsed::Estimate(header) => {
                            estimated.push(header);
                        },
                        NavParsed::Nominal(header) => {
                            nominal.push(header);
                        },
                    }
                },
                Err(error) => {
                    assert(parsed_nav_item(t[i as int]@) is Unknown);
                    return Err(error);
                },
            }
            i = i + 1;
        }
        let ghost plain_before = plain@;
        plain.push(NavSolutionHeader::EstimatedState(copy_headers(&estimated)));
        plain.push(NavSolutionHeader::NominalState(copy_headers(&nominal)));
        assert(plain@.subrange(0, plain@.len() - 2) == plain_before);
        Ok(
            NavSolutionFormatter {
                filename,
                headers: plain,
                estimated_headers: StateFormatter {
                    filename: String::from_str("file_should_not_exist"),
                    headers: estimated,
                },
                nominal_headers: StateFormatter {
                    filename: String::from_str("file_should_not_exist"),
                    headers: nominal,
                },
                frame_names: frames,
            },
        )
    }

    /// The formatter of the default columns, into the file `filename`.
    pub fn default(filename: String) -> (r: NavSolutionFormatter)
        ensures
            r.filename == filename,
            r.headers@.map_values(|h: NavSolutionHeader| plain_header(h)) == default_nav_headers(),
            forall|i: int| 0 <= i < r.headers@.len() ==> column_frame(#[trigger] r.headers@[i]) is None,
            r.estimated_headers.headers@ == default_estimate_headers(),
            r.estimated_headers.filename@ == "file_should_not_exist"@,
            r.nominal_headers.headers@.len() == 0,
            r.nominal_headers.filename@ == "file_should_not_exist"@,
            r.frame_names@.len() == 0,
    {
        let mut estimated: Vec<StateHeader> = Vec::with_capacity(6);
        estimated.push(StateHeader::from(StateParameter::X));
        estimated.push(StateHeader::from(StateParameter::Y));
        estimated.push(StateHeader::from(StateParameter::Z));
        estimated.push(StateHeader::from(StateParameter::VX));
        estimated.push(StateHeader::from(StateParameter::VY));
        estimated.push(StateHeader::from(StateParameter::VZ));
        assert(estimated@ =~= default_estimate_headers());
        let mut headers: Vec<NavSolutionHeader> = Vec::with_capacity(14);
        headers.push(NavSolutionHeader::Epoch(EpochFormat::GregorianTai));
        headers.push(NavSolutionHeader::Delta_x);
        headers.push(NavSolutionHeader::Delta_y);
        headers.push(NavSolutionHeader::Delta_z);
        headers.push(NavSolutionHeader::Delta_vx);
        headers.push(NavSolutionHeader::Delta_vy);
        headers.push(NavSolutionHeader::Delta_vz);
        headers.push(NavSolutionHeader::Cx_x { frame: None });
        headers.push(NavSolutionHeader::Cy_y { frame: None });
        headers.push(NavSolutionHeader::Cz_z { frame: None });
        headers.push(NavSolutionHeader::Cx_dot_x_dot { frame: None });
        headers.push(NavSolutionHeader::Cy_dot_y_dot { frame: None });
        headers.push(NavSolutionHeader::Cz_dot_z_dot { frame: None });
        headers.push(NavSolutionHeader::EstimatedState(copy_headers(&estimated)));
        assert(headers@.map_values(|h: NavSolutionHeader| plain_header(h)) =~= default_nav_headers());
        NavSolutionFormatter {
            filename,
            headers,
            estimated_headers: StateFormatter {
                filename: String::from_str("file_should_not_exist"),
                headers: estimated,
            },
            nominal_headers: StateFormatter {
                filename: String::from_str("file_should_not_exist"),
                headers: Vec::new(),
            },
            frame_names: Vec::new(),
        }
    }
}

impl OutputSerde {
    /// The formatter of navigation solutions that the configuration asks for: that
    /// of its headers, and else that of the default columns.
    pub fn to_nav_sol_formatter(&self) -> (r: Result<NavSolutionFormatter, NyxError>)
        ensures
            self.headers is None ==> r is Ok,
            self.headers matches Some(h) ==> (r is Ok <==> all_nav_headers(h@)),
            r matches Ok(f) ==> f.filename == self.filename,
    {
        match &self.headers {
            Some(headers) => NavSolutionFormatter::from_headers(headers, self.filename.clone()),
            None => Ok(NavSolutionFormatter::default(self.filename.clone())),
        }
    }
}

} // verus!
