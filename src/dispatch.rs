use vstd::prelude::*;
use crate::vector::Point;
use crate::stroke::{Primitive, all_in_range, has_coincident, stroke_outline, add_circle_interpolation};

verus! {

/// The shape of a pen or stamp, sizes in millionths of the drawing unit.
#[derive(Clone, Copy, Debug, PartialEq, Eq)]
pub enum Aperture {
    Circle { diameter: u64 },
    Rectangle { width: u64, height: u64 },
    Obround,
    Polygon,
    Other,
}

/// One drawing command, with its coordinates already read; `None` stands for a
/// coordinate that lacked a component.
#[derive(Clone, Copy, Debug, PartialEq, Eq)]
pub enum Command {
    Interpolate(Option<Point>),
    Move(Option<Point>),
    Flash(Option<Point>),
    SelectAperture(i32),
    RegionBegin,
    RegionEnd,
    /// Any other mode change, comment or extended code.
    ModeChange,
}

/// Why a conversion stops.
#[derive(Clone, Copy, Debug, PartialEq, Eq)]
pub enum ConvertError {
    /// An aperture was needed before any was selected.
    NoApertureSelected,
    /// The selected aperture id is not among the defined apertures.
    UnknownAperture(i32),
    /// A path of two or more points was drawn with a non-circular aperture.
    UnsupportedAperture(i32),
    /// Two consecutive points of a stroked path coincide.
    DegenerateSegment,
    /// A flash lacked a coordinate component.
    BadFlashCoordinates,
}

/// The shape defined for `id`: the first entry with that id.
pub open spec fn lookup(apertures: Seq<(i32, Aperture)>, id: i32) -> Option<Aperture>
    decreases apertures.len(),
{
    if apertures.len() == 0 {
        None
    } else if apertures[0].0 == id {
        Some(apertures[0].1)
    } else {
        lookup(apertures.drop_first(), id)
    }
}

/// The aperture that a selection refers to.
pub open spec fn spec_get_aperture(apertures: Seq<(i32, Aperture)>, aperture_id: Option<i32>) -> Result<
    Aperture,
    ConvertError,
> {
    match aperture_id {
        None => Err(ConvertError::NoApertureSelected),
        Some(id) => match lookup(apertures, id) {
            None => Err(ConvertError::UnknownAperture(id)),
            Some(a) => Ok(a),
        },
    }
}

/// Every circular aperture has a positive diameter.
pub open spec fn apertures_valid(apertures: Seq<(i32, Aperture)>) -> bool {
    forall|i: int| 0 <= i < apertures.len() && (#[trigger] apertures[i]).1 is Circle ==> apertures[i].1->diameter > 0
}

/// A shape found among valid apertures is valid itself.
proof fn lemma_lookup_valid(apertures: Seq<(i32, Aperture)>, id: i32)
    requires
        apertures_valid(apertures),
    ensures
        lookup(apertures, id) matches Some(a) ==> (a is Circle ==> a->diameter > 0),
    decreases apertures.len(),
{
    if apertures.len() > 0 && apertures[0].0 != id {
        let rest = apertures.drop_first();
        assert forall|i: int| 0 <= i < rest.len() && (#[trigger] rest[i]).1 is Circle implies rest[i].1->diameter > 0 by {
            assert(rest[i] == apertures[i + 1]);
        }
        lemma_lookup_valid(rest, id);
    }
}

/// What a flush appends to the drawing.
pub enum Emitted {
    Nothing,
    /// One polyline through the path's points.
    Polyline,
    /// One placement of an aperture's symbol.
    Place { aperture: i32, at: Point },
    /// The outline of the path stroked by a round pen.
    Stroke { diameter: u64 },
}

/// What flushing `path` with the selection `aperture_id` appends, or why it fails.
pub open spec fn flush_outcome(apertures: Seq<(i32, Aperture)>, path: Seq<Point>, aperture_id: Option<
    i32,
>) -> Result<Emitted, ConvertError> {
    if aperture_id is None {
        Ok(Emitted::Polyline)
    } else if path.len() == 0 {
        Ok(Emitted::Nothing)
    } else if path.len() == 1 {
        match spec_get_aperture(apertures, aperture_id) {
            Err(e) => Err(e),
            Ok(_) => Ok(Emitted::Place { aperture: aperture_id->0, at: path[0] }),
        }
    } else {
        match spec_get_aperture(apertures, aperture_id) {
            Err(e) => Err(e),
            Ok(Aperture::Circle { diameter }) => if has_coincident(path) {
                Err(ConvertError::DegenerateSegment)
            } else {
                Ok(Emitted::Stroke { diameter })
            },
            Ok(_) => Err(ConvertError::UnsupportedAperture(aperture_id->0)),
        }
    }
}

/// `p` is a polyline through exactly the points of `path`, in order.
pub open spec fn is_polyline_of(p: Primitive, path: Seq<Point>) -> bool {
    match p {
        Primitive::Polyline { points } => points@ == path,
        _ => false,
    }
}

/// `after` is `before` with what `e` describes for `path` appended.
pub open spec fn appended(before: Seq<Primitive>, after: Seq<Primitive>, e: Emitted, path: Seq<Point>) -> bool {
    match e {
        Emitted::Nothing => after == before,
        Emitted::Polyline => after.len() == before.len() + 1 && after.take(before.len() as int) == before
            && is_polyline_of(after.last(), path),
        Emitted::Place { aperture, at } => after == before.push(
            Primitive::Placement { aperture, location: at },
        ),
        Emitted::Stroke { diameter } => after == before + stroke_outline(path, diameter),
    }
}

/// Flushing a single point with a circular aperture selected places that
/// aperture's symbol once, at the point, and draws nothing else.
pub proof fn lemma_single_point_flashes(apertures: Seq<(i32, Aperture)>, p: Point, id: i32, diameter: u64)
    requires
        lookup(apertures, id) == Some(Aperture::Circle { diameter }),
    ensures
        flush_outcome(apertures, seq![p], Some(id)) == Ok::<Emitted, ConvertError>(Emitted::Place { aperture: id, at: p }),
        forall|before: Seq<Primitive>, after: Seq<Primitive>|
            #[trigger] appended(before, after, Emitted::Place { aperture: id, at: p }, seq![p])
                <==> after == before.push(Primitive::Placement { aperture: id, location: p }),
{
}

/// Flushing an empty path with an aperture selected succeeds and draws nothing.
/// (With none selected, the flush draws an empty polyline.)
pub proof fn lemma_empty_path_draws_nothing(apertures: Seq<(i32, Aperture)>, aperture_id: Option<i32>)
    requires
        aperture_id is Some,
    ensures
        flush_outcome(apertures, Seq::empty(), aperture_id) == Ok::<Emitted, ConvertError>(Emitted::Nothing),
        forall|before: Seq<Primitive>, after: Seq<Primitive>|
            #[trigger] appended(before, after, Emitted::Nothing, Seq::empty()) <==> after == before,
{
}

/// Flushing a path of two or more points, no two consecutive ones equal, with a
/// circular aperture selected draws exactly its stroke outline.
pub proof fn lemma_long_path_strokes(apertures: Seq<(i32, Aperture)>, path: Seq<Point>, id: i32, diameter: u64)
    requires
        lookup(apertures, id) == Some(Aperture::Circle { diameter }),
        path.len() >= 2,
        !has_coincident(path),
    ensures
        flush_outcome(apertures, path, Some(id)) == Ok::<Emitted, ConvertError>(Emitted::Stroke { diameter }),
        forall|before: Seq<Primitive>, after: Seq<Primitive>|
            #[trigger] appended(before, after, Emitted::Stroke { diameter }, path)
                <==> after == before + stroke_outline(path, diameter),
{
}

/// The shape defined for `id` among `apertures`, if any.
pub fn lookup_aperture(apertures: &Vec<(i32, Aperture)>, id: i32) -> (r: Option<Aperture>)
    ensures
        r == lookup(apertures@, id),
{
    let mut i: usize = 0;
    assert(apertures@.subrange(0, apertures@.len() as int) =~= apertures@);
    while i < apertures.len()
        invariant
            i <= apertures@.len(),
            lookup(apertures@, id) == lookup(apertures@.subrange(i as int, apertures@.len() as int), id),
        decreases apertures.len() - i,
    {
        let ghost rest = apertures@.subrange(i as int, apertures@.len() as int);
        assert(rest[0] == apertures@[i as int]);
        if apertures[i].0 == id {
            assert(lookup(rest, id) == Some(rest[0].1));
            let found = apertures[i].1;
            assert(found == apertures@[i as int].1);
            return Some(found);
        }
        assert(rest.drop_first() =~= apertures@.subrange(i + 1, apertures@.len() as int));
        i = i + 1;
    }
    assert(apertures@.subrange(i as int, apertures@.len() as int) =~= Seq::<(i32, Aperture)>::empty());
    None
}

/// The aperture that the selection `aperture_id` names; the selection must
/// name a defined aperture.
pub fn get_aperture(apertures: &Vec<(i32, Aperture)>, aperture_id: Option<i32>) -> (r: Aperture)
    requires
        spec_get_aperture(apertures@, aperture_id) is Ok,
    ensures
        spec_get_aperture(apertures@, aperture_id) == Ok::<Aperture, ConvertError>(r),
{
    let found = lookup_aperture(apertures, aperture_id.unwrap());
    found.unwrap()
}

/// Whether the selection `aperture_id` names a defined aperture, and if not,
/// which of the two errors applies.
pub fn check_selection(apertures: &Vec<(i32, Aperture)>, aperture_id: Option<i32>) -> (r: Result<(), ConvertError>)
    ensures
        r == match spec_get_aperture(apertures@, aperture_id) {
            Err(e) => Err::<(), ConvertError>(e),
            Ok(_) => Ok(()),
        },
{
    match aperture_id {
        None => Err(ConvertError::NoApertureSelected),
        Some(id) => match lookup_aperture(apertures, id) {
            None => Err(ConvertError::UnknownAperture(id)),
            Some(_) => Ok(()),
        },
    }
}

/// Places the symbol of the selected aperture at `coords`; the selection must
/// name a defined aperture.
pub fn flash_aperture_at_coords(
    drawing: &mut Vec<Primitive>,
    apertures: &Vec<(i32, Aperture)>,
    aperture_id: Option<i32>,
    coords: &Point,
)
    requires
        spec_get_aperture(apertures@, aperture_id) is Ok,
    ensures
        final(drawing)@ == old(drawing)@.push(Primitive::Placement { aperture: aperture_id->0, location: *coords }),
{
    let id = aperture_id.unwrap();
    drawing.push(Primitive::Placement { aperture: id, location: *coords });
}

fn find_coincident(path: &Vec<Point>) -> (r: bool)
    ensures
        r == has_coincident(path@),
{
    let n = path.len();
    if n < 2 {
        return false;
    }
    let mut i: usize = 0;
    while i < n - 1
        invariant
            n == path@.len(),
            n >= 2,
            forall|j: int| 0 <= j < i ==> #[trigger] path@[j] != path@[j + 1],
        decreases path.len() - i,
    {
        if path[i] == path[i + 1] {
            return true;
        }
        i = i + 1;
    }
    false
}

/// Whether flushing `coord_list` with the selection `aperture_id` can be done,
/// and if not, why.
pub fn check_flush(apertures: &Vec<(i32, Aperture)>, coord_list: &Vec<Point>, aperture_id: Option<i32>) -> (r:
    Result<(), ConvertError>)
    ensures
        r == match flush_outcome(apertures@, coord_list@, aperture_id) {
            Err(e) => Err::<(), ConvertError>(e),
            Ok(_) => Ok(()),
        },
{
    let len = coord_list.len();
    if aperture_id.is_none() || len == 0 {
        return Ok(());
    }
    let selected = check_selection(apertures, aperture_id);
    if selected.is_err() || len == 1 {
        return selected;
    }
    match get_aperture(apertures, aperture_id) {
        Aperture::Circle { .. } => if find_coincident(coord_list) {
            Err(ConvertError::DegenerateSegment)
        } else {
            Ok(())
        },
        _ => Err(ConvertError::UnsupportedAperture(aperture_id.unwrap())),
    }
}

/// Flushes the accumulated path: a polyline through it when no aperture is
/// selected, whatever its length; otherwise nothing for an empty path, a
/// placement for a single point, and the stroke outline for a longer path
/// drawn with a circular aperture. The path is emptied. The flush must be one
/// that `check_flush` accepts.
pub fn add_interpolation(
    drawing: &mut Vec<Primitive>,
    apertures: &Vec<(i32, Aperture)>,
    coord_list: &mut Vec<Point>,
    aperture_id: Option<i32>,
)
    requires
        all_in_range(old(coord_list)@),
        apertures_valid(apertures@),
        flush_outcome(apertures@, old(coord_list)@, aperture_id) is Ok,
    ensures
        final(coord_list)@.len() == 0,
        appended(
            old(drawing)@,
            final(drawing)@,
            flush_outcome(apertures@, old(coord_list)@, aperture_id)->Ok_0,
            old(coord_list)@,
        ),
{
    let len = coord_list.len();
    if aperture_id.is_none() {
        let mut points: Vec<Point> = Vec::new();
        let mut i: usize = 0;
        while i < len
            invariant
                len == coord_list@.len(),
                i <= len,
                points@ == coord_list@.take(i as int),
            decreases len - i,
        {
            points.push(coord_list[i]);
            assert(coord_list@.take(i + 1) =~= coord_list@.take(i as int).push(coord_list@[i as int]));
            i = i + 1;
        }
        assert(coord_list@.take(len as int) =~= coord_list@);
        let ghost before = drawing@;
        drawing.push(Primitive::Polyline { points });
        assert(drawing@.take(before.len() as int) =~= before);
    } else if len == 1 {
        flash_aperture_at_coords(drawing, apertures, aperture_id, &coord_list[0]);
    } else if len >= 2 {
        proof {
            lemma_lookup_valid(apertures@, aperture_id->0);
        }
        match get_aperture(apertures, aperture_id) {
            Aperture::Circle { diameter } => add_circle_interpolation(drawing, coord_list, diameter),
            _ => {},
        }
    }
    coord_list.clear();
}

/// The coordinates a command carries lie within the coordinate limit.
pub open spec fn command_in_range(command: Command) -> bool {
    match command {
        Command::Interpolate(Some(p)) => p.in_range(),
        Command::Move(Some(p)) => p.in_range(),
        Command::Flash(Some(p)) => p.in_range(),
        _ => true,
    }
}

/// The dispatcher's state as plain values: the path being accumulated, the
/// selected aperture and the drawing so far.
pub type State = (Seq<Point>, Option<i32>, Seq<Primitive>);

/// Processing `command` in state `s` with the defined `apertures` yields `r`,
/// and, on success, the state `t`.
pub open spec fn step_spec(
    apertures: Seq<(i32, Aperture)>,
    s: State,
    command: Command,
    t: State,
    r: Result<(), ConvertError>,
) -> bool {
    match command {
        Command::Interpolate(c) => r is Ok && t.1 == s.1 && t.2 == s.2 && t.0 == match c {
            Some(p) => s.0.push(p),
            None => s.0,
        },
        _ => match flush_outcome(apertures, s.0, s.1) {
            Err(e) => r == Err::<(), ConvertError>(e),
            Ok(em) => match command {
                Command::Flash(None) => r == Err::<(), ConvertError>(ConvertError::BadFlashCoordinates),
                Command::Flash(Some(p)) => match spec_get_aperture(apertures, s.1) {
                    Err(e) => r == Err::<(), ConvertError>(e),
                    Ok(_) => r is Ok && t.0.len() == 0 && t.1 == s.1 && t.2.len() > 0
                        && appended(s.2, t.2.drop_last(), em, s.0)
                        && t.2.last() == Primitive::Placement { aperture: s.1->0, location: p },
                },
                _ => r is Ok && appended(s.2, t.2, em, s.0) && t.1 == match command {
                    Command::SelectAperture(id) => Some(id),
                    Command::RegionBegin => None,
                    _ => s.1,
                } && t.0 == match command {
                    Command::Move(Some(p)) => seq![p],
                    _ => Seq::empty(),
                },
            },
        },
    }
}

/// The accumulator that turns commands into primitives, one at a time.
pub struct Converter {
    pub current_path: Vec<Point>,
    pub current_aperture: Option<i32>,
    pub drawing: Vec<Primitive>,
}

impl Converter {
    pub open spec fn state(&self) -> State {
        (self.current_path@, self.current_aperture, self.drawing@)
    }

    pub open spec fn wf(&self) -> bool {
        all_in_range(self.current_path@)
    }

    /// A converter with nothing drawn, no path and no aperture selected.
    pub fn new() -> (r: Converter)
        ensures
            r.state() == (Seq::<Point>::empty(), None::<i32>, Seq::<Primitive>::empty()),
            r.wf(),
    {
        Converter { current_path: Vec::new(), current_aperture: None, drawing: Vec::new() }
    }

    /// Processes one command.
    pub fn step(&mut self, apertures: &Vec<(i32, Aperture)>, command: Command) -> (r: Result<(), ConvertError>)
        requires
            old(self).wf(),
            apertures_valid(apertures@),
            command_in_range(command),
        ensures
            final(self).wf(),
            step_spec(apertures@, old(self).state(), command, final(self).state(), r),
    {
        match command {
            Command::Interpolate(c) => {
                if let Some(p) = c {
                    self.current_path.push(p);
                }
                return Ok(());
            },
            _ => {},
        }
        let flushable = check_flush(apertures, &self.current_path, self.current_aperture);
        if let Err(e) = flushable {
            return Err(e);
        }
        add_interpolation(&mut self.drawing, apertures, &mut self.current_path, self.current_aperture);
        assert(self.current_path@ =~= Seq::<Point>::empty());
        match command {
            Command::Flash(c) => match c {
                None => Err(ConvertError::BadFlashCoordinates),
                Some(p) => {
                    let selected = check_selection(apertures, self.current_aperture);
                    if let Err(e) = selected {
                        return Err(e);
                    }
                    let ghost mid = self.drawing@;
                    flash_aperture_at_coords(&mut self.drawing, apertures, self.current_aperture, &p);
                    assert(self.drawing@.drop_last() =~= mid);
                    Ok(())
                },
            },
            Command::Move(c) => {
                if let Some(p) = c {
                    self.current_path.push(p);
                    assert(self.current_path@ =~= seq![p]);
                }
                Ok(())
            },
            Command::SelectAperture(id) => {
                self.current_aperture = Some(id);
                Ok(())
            },
            Command::RegionBegin => {
                self.current_aperture = None;
                Ok(())
            },
            _ => Ok(()),
        }
    }
}

/// `trace` lists the states a converter passes through while every command of
/// `commands` succeeds, starting from the empty state.
pub open spec fn is_run(apertures: Seq<(i32, Aperture)>, commands: Seq<Command>, trace: Seq<State>) -> bool {
    &&& trace.len() == commands.len() + 1
    &&& trace[0] == (Seq::<Point>::empty(), None::<i32>, Seq::<Primitive>::empty())
    &&& forall|i: int|
        0 <= i < commands.len() ==> step_spec(apertures, trace[i], #[trigger] commands[i], trace[i + 1], Ok(()))
}

/// Every command of `commands` succeeds, and `drawing` is what the run draws.
pub open spec fn run_yields(apertures: Seq<(i32, Aperture)>, commands: Seq<Command>, drawing: Seq<Primitive>) -> bool {
    exists|trace: Seq<State>| #[trigger] is_run(apertures, commands, trace) && drawing == trace.last().2
}

/// The commands before `commands[j]` succeed and `commands[j]` fails with `e`,
/// for some `j`.
pub open spec fn run_fails_with(apertures: Seq<(i32, Aperture)>, commands: Seq<Command>, e: ConvertError) -> bool {
    exists|j: int, trace: Seq<State>, t: State|
        0 <= j < commands.len() && #[trigger] is_run(apertures, commands.take(j), trace)
        && #[trigger] step_spec(apertures, trace.last(), commands[j], t, Err(e))
}

/// Processes `commands` in order from the empty state. On success the result is
/// the drawing of the last state of the run; otherwise the error is the one of
/// the first command that fails.
pub fn convert(apertures: &Vec<(i32, Aperture)>, commands: &Vec<Command>) -> (r: Result<Vec<Primitive>, ConvertError>)
    requires
        apertures_valid(apertures@),
        forall|i: int| 0 <= i < commands@.len() ==> command_in_range(#[trigger] commands@[i]),
    ensures
        match r {
            Ok(d) => run_yields(apertures@, commands@, d@),
            Err(e) => run_fails_with(apertures@, commands@, e),
        },
{
    let ghost aps = apertures@;
    let mut conv = Converter::new();
    let ghost mut trace: Seq<State> = seq![conv.state()];
    let mut i: usize = 0;
    while i < commands.len()
        invariant
            aps == apertures@,
            apertures_valid(aps),
            conv.wf(),
            i <= commands@.len(),
            forall|k: int| 0 <= k < commands@.len() ==> command_in_range(#[trigger] commands@[k]),
            is_run(aps, commands@.take(i as int), trace),
            trace.last() == conv.state(),
        decreases commands.len() - i,
    {
        let r = conv.step(apertures, commands[i]);
        if let Err(e) = r {
            assert(step_spec(aps, trace.last(), commands@[i as int], conv.state(), Err(e)));
            assert(run_fails_with(aps, commands@, e));
            return Err(e);
        }
        proof {
            let old_trace = trace;
            trace = trace.push(conv.state());
            assert forall|k: int| 0 <= k < i + 1 implies step_spec(aps, trace[k], #[trigger] commands@.take(i + 1)[k], trace[k + 1], Ok(())) by {
                if k < i {
                    assert(commands@.take(i + 1)[k] == commands@.take(i as int)[k]);
                    assert(trace[k] == old_trace[k] && trace[k + 1] == old_trace[k + 1]);
                }
            }
        }
        i = i + 1;
    }
    assert(commands@.take(i as int) =~= commands@);
    assert(run_yields(aps, commands@, conv.drawing@));
    Ok(conv.drawing)
}

} // verus!
