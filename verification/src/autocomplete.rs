use vstd::prelude::*;
use vstd::string::*;
use crate::coord::{coord_of, make_coord, Coord, MAX_LAT, MAX_LON};
use crate::error::{BragiError, ParamReason};
use crate::place_type::Type;
use crate::shape::{es_shape, JsonParams};
use crate::text::str_eq;

verus! {

/// The number of results of a query that asks for none.
pub fn default_limit() -> (r: u64)
    ensures
        r == 10,
{
    10u64
}

/// The parameters of an autocomplete request.
#[derive(Clone, Debug, PartialEq, Eq)]
pub struct Params {
    pub q: String,
    pub pt_dataset: Vec<String>,
    pub all_data: bool,
    pub limit: u64,
    pub offset: u64,
    /// Timeout in milliseconds.
    pub timeout: Option<u64>,
    /// Latitude, in fixed-point units.
    pub lat: Option<i64>,
    /// Longitude, in fixed-point units.
    pub lon: Option<i64>,
    pub types: Vec<Type>,
    pub lang: Option<String>,
}

/// What the server is set up with.
#[derive(Clone, Debug, PartialEq, Eq)]
pub struct Context {
    pub es_cnx_string: String,
    /// Longest timeout that a request can get, in milliseconds; where a
    /// request asks for none, this is its timeout.
    pub max_es_timeout: Option<u64>,
}

/// One search against the index.
#[derive(Clone, Debug, PartialEq, Eq)]
pub struct Query {
    pub q: String,
    pub pt_datasets: Vec<String>,
    pub all_data: bool,
    pub offset: u64,
    pub limit: u64,
    /// Position that results are drawn towards.
    pub coord: Option<Coord>,
    pub cnx: String,
    /// Ring that results lie in, latitude first.
    pub shape: Option<Vec<(i32, i32)>>,
    /// Wire names of the kinds of place asked for; none asks for all.
    pub types: Vec<&'static str>,
    pub langs: Vec<String>,
    /// Timeout in milliseconds.
    pub timeout: Option<u64>,
}

/// The timeout of a request: the one asked for, cut down to the server's
/// longest; the server's where the request asks for none.
pub open spec fn effective_timeout(asked: Option<u64>, max: Option<u64>) -> Option<u64> {
    match (asked, max) {
        (None, t) => t,
        (Some(t), None) => Some(t),
        (Some(t), Some(m)) => Some(if t <= m { t } else { m }),
    }
}

pub fn get_timeout(asked: &Option<u64>, max: &Option<u64>) -> (r: Option<u64>)
    ensures
        r == effective_timeout(*asked, *max),
{
    match (*asked, *max) {
        (None, t) => t,
        (Some(t), None) => Some(t),
        (Some(t), Some(m)) => Some(if t <= m { t } else { m }),
    }
}

/// A timeout beyond the server's longest is cut down to it, and a request
/// without a timeout gets the server's.
pub proof fn lemma_timeout_clamped(asked: u64, max: u64, server: Option<u64>)
    ensures
        asked > max ==> effective_timeout(Some(asked), Some(max)) == Some(max),
        asked <= max ==> effective_timeout(Some(asked), Some(max)) == Some(asked),
        effective_timeout(None, server) == server,
{
}

/// Copies a list of texts.
pub fn clone_strings(list: &Vec<String>) -> (out: Vec<String>)
    ensures
        out@ == list@,
{
    let mut out: Vec<String> = Vec::new();
    let n: usize = list.len();
    let mut i: usize = 0;
    while i < n
        invariant
            i <= n,
            n == list@.len(),
            out@ == list@.subrange(0, i as int),
        decreases n - i,
    {
        out.push(list[i].clone());
        assert(out@ =~= list@.subrange(0, i + 1));
        i += 1;
    }
    assert(list@.subrange(0, n as int) =~= list@);
    out
}

impl Params {
    /// The parameters of a request that gives only its text.
    pub fn new(q: String) -> (p: Params)
        ensures
            p.q == q,
            p.pt_dataset@.len() == 0,
            !p.all_data,
            p.limit == 10,
            p.offset == 0,
            p.timeout.is_none(),
            p.lat.is_none(),
            p.lon.is_none(),
            p.types@.len() == 0,
            p.lang.is_none(),
    {
        Params {
            q,
            pt_dataset: Vec::new(),
            all_data: false,
            limit: default_limit(),
            offset: 0,
            timeout: None,
            lat: None,
            lon: None,
            types: Vec::new(),
            lang: None,
        }
    }

    /// The wire names of the kinds of place asked for.
    pub fn types_as_str(&self) -> (r: Vec<&'static str>)
        ensures
            r@.len() == self.types@.len(),
            forall|i: int| 0 <= i < r@.len() ==> (#[trigger] r@[i])@ == self.types@[i].name(),
    {
        let mut r: Vec<&'static str> = Vec::new();
        let n: usize = self.types.len();
        let mut i: usize = 0;
        while i < n
            invariant
                i <= n,
                n == self.types@.len(),
                r@.len() == i,
                forall|j: int| 0 <= j < i ==> (#[trigger] r@[j])@ == self.types@[j].name(),
            decreases n - i,
        {
            r.push(self.types[i].as_str());
            i += 1;
        }
        r
    }

    /// The position asked for: none where neither angle is given, a refusal
    /// where only one is, and else what the two angles give.
    pub open spec fn coord_spec(self) -> Result<Option<Coord>, BragiError> {
        match (self.lon, self.lat) {
            (Some(lon), Some(lat)) => match coord_of(lon, lat) {
                Ok(c) => Ok(Some(c)),
                Err(e) => Err(e),
            },
            (None, None) => Ok(None),
            _ => Err(BragiError::InvalidParam(ParamReason::IncompleteCoord)),
        }
    }

    pub fn coord(&self) -> (r: Result<Option<Coord>, BragiError>)
        ensures
            r == self.coord_spec(),
    {
        match (self.lon, self.lat) {
            (Some(lon), Some(lat)) => match make_coord(lon, lat) {
                Ok(c) => Ok(Some(c)),
                Err(e) => Err(e),
            },
            (None, None) => Ok(None),
            _ => Err(BragiError::InvalidParam(ParamReason::IncompleteCoord)),
        }
    }

    /// The languages asked for, the preferred one first.
    pub fn langs(&self) -> (r: Vec<&str>)
        ensures
            match self.lang {
                Some(l) => r@.len() == 1 && r@[0]@ == l@,
                None => r@.len() == 0,
            },
    {
        let mut r: Vec<&str> = Vec::new();
        match &self.lang {
            Some(l) => {
                r.push(l.as_str());
            },
            None => {},
        }
        r
    }

    /// The timeout asked for, in milliseconds.
    pub fn timeout(&self) -> (r: Option<u64>)
        ensures
            r == self.timeout,
    {
        self.timeout
    }
}

/// Two angles on the globe, given together, make a position; one angle
/// without the other is refused as an invalid parameter.
pub proof fn lemma_coord(p: Params)
    ensures
        (p.lon is Some && p.lat is Some && -MAX_LON <= p.lon->Some_0 <= MAX_LON && -MAX_LAT
            <= p.lat->Some_0 <= MAX_LAT) ==> p.coord_spec() == Ok::<Option<Coord>, BragiError>(
            Some(Coord { lon: p.lon->Some_0 as i32, lat: p.lat->Some_0 as i32 }),
        ),
        (p.lon is Some) != (p.lat is Some) ==> p.coord_spec() == Err::<Option<Coord>, BragiError>(
            BragiError::InvalidParam(ParamReason::IncompleteCoord),
        ),
        (p.lon is None && p.lat is None) ==> p.coord_spec() == Ok::<Option<Coord>, BragiError>(
            None,
        ),
{
}

/// Whether `query` is the search that the request asks for.
pub open spec fn plans(
    params: Params,
    state: Context,
    shape: Option<Vec<(i32, i32)>>,
    coord: Option<Coord>,
    query: Query,
) -> bool {
    &&& query.q@ == params.q@
    &&& query.pt_datasets@ == params.pt_dataset@
    &&& query.all_data == params.all_data
    &&& query.offset == params.offset
    &&& query.limit == params.limit
    &&& query.coord == coord
    &&& query.cnx@ == state.es_cnx_string@
    &&& query.shape == shape
    &&& query.types@.len() == params.types@.len()
    &&& forall|i: int|
        0 <= i < query.types@.len() ==> (#[trigger] query.types@[i])@ == params.types@[i].name()
    &&& match params.lang {
        Some(l) => query.langs@.len() == 1 && query.langs@[0]@ == l@,
        None => query.langs@.len() == 0,
    }
    &&& query.timeout == effective_timeout(params.timeout, state.max_es_timeout)
}

/// Plans the search for a request: the text, the datasets, the page, the
/// position to draw towards, the shape to stay in, the kinds of place, the
/// languages and the timeout. Fails, before anything is searched, where
/// the position is refused.
pub fn call_autocomplete(params: &Params, state: &Context, shape: Option<Vec<(i32, i32)>>) -> (r:
    Result<Query, BragiError>)
    ensures
        match r {
            Ok(query) => params.coord_spec() is Ok && plans(
                *params,
                *state,
                shape,
                params.coord_spec()->Ok_0,
                query,
            ),
            Err(e) => params.coord_spec() == Err::<Option<Coord>, BragiError>(e),
        },
{
    let mut langs: Vec<String> = Vec::new();
    match &params.lang {
        Some(l) => {
            langs.push(l.clone());
        },
        None => {},
    }
    let timeout = get_timeout(&params.timeout(), &state.max_es_timeout);
    let coord = match params.coord() {
        Ok(c) => c,
        Err(e) => {
            return Err(e);
        },
    };
    Ok(
        Query {
            q: params.q.clone(),
            pt_datasets: clone_strings(&params.pt_dataset),
            all_data: params.all_data,
            offset: params.offset,
            limit: params.limit,
            coord,
            cnx: state.es_cnx_string.clone(),
            shape,
            types: params.types_as_str(),
            langs,
            timeout,
        },
    )
}

/// Plans the search for a request without a shape.
pub fn autocomplete(params: &Params, state: &Context) -> (r: Result<Query, BragiError>)
    ensures
        match r {
            Ok(query) => params.coord_spec() is Ok && plans(
                *params,
                *state,
                None,
                params.coord_spec()->Ok_0,
                query,
            ),
            Err(e) => params.coord_spec() == Err::<Option<Coord>, BragiError>(e),
        },
{
    call_autocomplete(params, state, None)
}

/// Plans the search for a request with a shape in its body. A refused shape
/// fails the request with the shape's own reason, whatever the parameters
/// hold.
pub fn post_autocomplete(params: &Params, state: &Context, json_params: &JsonParams) -> (r: Result<
    Query,
    BragiError,
>)
    ensures
        match r {
            Ok(query) => es_shape(json_params.shape) is Ok && params.coord_spec() is Ok
                && query.shape is Some && query.shape->Some_0@ == es_shape(
                json_params.shape,
            )->Ok_0 && plans(*params, *state, query.shape, params.coord_spec()->Ok_0, query),
            Err(e) => match es_shape(json_params.shape) {
                Err(s) => e == s,
                Ok(_) => params.coord_spec() == Err::<Option<Coord>, BragiError>(e),
            },
        },
{
    let shape = match json_params.get_es_shape() {
        Ok(s) => s,
        Err(e) => {
            return Err(e);
        },
    };
    call_autocomplete(params, state, Some(shape))
}

/// A place that the index found.
#[derive(Clone, Debug, PartialEq, Eq)]
pub struct Place {
    pub id: String,
    /// The label in no language in particular.
    pub label: String,
    /// Labels by language: the language's tag, then the label.
    pub labels: Vec<(String, String)>,
}

/// A place as it is shown.
#[derive(Clone, Debug, PartialEq, Eq)]
pub struct Suggestion {
    pub id: String,
    pub label: String,
    /// The language that the answer is marked with.
    pub lang: Option<String>,
}

/// The answer to an autocomplete request: the places by rank.
#[derive(Clone, Debug, PartialEq, Eq)]
pub struct Autocomplete {
    pub features: Vec<Suggestion>,
}

/// The first label in the list under a language.
pub open spec fn localized(labels: Seq<(String, String)>, lang: Seq<char>) -> Option<Seq<char>>
    decreases labels.len(),
{
    if labels.len() == 0 {
        None
    } else if labels[0].0@ == lang {
        Some(labels[0].1@)
    } else {
        localized(labels.skip(1), lang)
    }
}

/// The label shown for a place: the one in the first of the languages that
/// the place has a label in, and the place's own label without one.
pub open spec fn label_for(place: Place, langs: Seq<&str>) -> Seq<char>
    decreases langs.len(),
{
    if langs.len() == 0 {
        place.label@
    } else {
        match localized(place.labels@, langs[0]@) {
            Some(l) => l,
            None => label_for(place, langs.skip(1)),
        }
    }
}

/// The language that an answer is marked with: the preferred one.
pub open spec fn marked_lang(langs: Seq<&str>) -> Option<Seq<char>> {
    if langs.len() == 0 {
        None
    } else {
        Some(langs[0]@)
    }
}

/// Whether `shown` is `place` as it is shown for these languages.
pub open spec fn shows(place: Place, langs: Seq<&str>, shown: Suggestion) -> bool {
    &&& shown.id@ == place.id@
    &&& shown.label@ == label_for(place, langs)
    &&& match shown.lang {
        Some(l) => marked_lang(langs) == Some(l@),
        None => marked_lang(langs).is_none(),
    }
}

/// Looks a label up by language.
pub fn find_label<'a>(labels: &'a Vec<(String, String)>, lang: &str) -> (r: Option<&'a String>)
    ensures
        match r {
            Some(l) => localized(labels@, lang@) == Some(l@),
            None => localized(labels@, lang@).is_none(),
        },
{
    let n: usize = labels.len();
    let mut i: usize = 0;
    assert(labels@.skip(0) =~= labels@);
    while i < n
        invariant
            i <= n,
            n == labels@.len(),
            localized(labels@, lang@) == localized(labels@.skip(i as int), lang@),
        decreases n - i,
    {
        if str_eq(labels[i].0.as_str(), lang) {
            return Some(&labels[i].1);
        }
        assert(labels@.skip(i as int).skip(1) =~= labels@.skip(i + 1));
        i += 1;
    }
    None
}

/// Picks the label of a place for a list of languages.
pub fn pick_label(place: &Place, langs: &Vec<&str>) -> (r: String)
    ensures
        r@ == label_for(*place, langs@),
{
    let n: usize = langs.len();
    let mut i: usize = 0;
    assert(langs@.skip(0) =~= langs@);
    while i < n
        invariant
            i <= n,
            n == langs@.len(),
            label_for(*place, langs@) == label_for(*place, langs@.skip(i as int)),
        decreases n - i,
    {
        match find_label(&place.labels, langs[i]) {
            Some(l) => {
                return l.clone();
            },
            None => {},
        }
        assert(langs@.skip(i as int).skip(1) =~= langs@.skip(i + 1));
        i += 1;
    }
    place.label.clone()
}

/// Shows what the index found: every place, in its rank, under the label
/// for the languages asked for, marked with the preferred language.
pub fn render(hits: &Vec<Place>, langs: &Vec<&str>) -> (r: Autocomplete)
    ensures
        r.features@.len() == hits@.len(),
        forall|i: int|
            0 <= i < hits@.len() ==> shows(hits@[i], langs@, #[trigger] r.features@[i]),
{
    let mut features: Vec<Suggestion> = Vec::new();
    let n: usize = hits.len();
    let mut i: usize = 0;
    while i < n
        invariant
            i <= n,
            n == hits@.len(),
            features@.len() == i,
            forall|j: int| 0 <= j < i ==> shows(hits@[j], langs@, #[trigger] features@[j]),
        decreases n - i,
    {
        let lang: Option<String> = if langs.len() == 0 {
            None
        } else {
            Some(String::from_str(langs[0]))
        };
        features.push(
            Suggestion { id: hits[i].id.clone(), label: pick_label(&hits[i], langs), lang },
        );
        i += 1;
    }
    Autocomplete { features }
}

} // verus!
