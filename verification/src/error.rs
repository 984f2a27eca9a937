//! Errors of the factory: a chain of `while building <name>` frames over
//! an underlying cause.

use vstd::prelude::*;

verus! {

/// The resources through which a dependency cycle ran, from the first
/// resource that was requested a second time around to that second
/// request, which closes the cycle.
#[derive(Debug)]
pub struct CycleError {
    path: Vec<&'static str>,
}

/// What made a request fail, underneath the frames that name the builds it
/// passed through.
#[derive(Debug)]
pub enum ErrorCause {
    /// The owning factory has been dropped.
    FactoryDropped,
    /// A resource depends on itself.
    Cycle(CycleError),
    /// A `build` of the caller's failed, with this message.
    Failure(String),
}

/// Error returned when a resource cannot be obtained from the factory.
///
/// Carries a chain of `while building <name>` frames, innermost first,
/// pushed as the failure travels out of nested builds, over the underlying
/// cause. The chain is empty for errors that did not originate inside a
/// build, such as [`BuildError::factory_dropped`].
#[derive(Debug)]
pub struct BuildError {
    chain: Vec<&'static str>,
    cause: ErrorCause,
}

/// The words that open the text of a cycle.
pub open spec fn cycle_heading() -> Seq<char> {
    "dependency cycle detected: "@
}

/// The text of a dropped factory.
pub open spec fn dropped_text() -> Seq<char> {
    "the DependencyFactory has been dropped"@
}

/// `names` joined by `separator`.
pub open spec fn joined(names: Seq<&'static str>, separator: Seq<char>) -> Seq<char>
    decreases names.len(),
{
    if names.len() == 0 {
        Seq::empty()
    } else if names.len() == 1 {
        names[0]@
    } else {
        joined(names.drop_last(), separator) + separator + names.last()@
    }
}

/// The text of a cycle through `path`.
pub open spec fn cycle_text(path: Seq<&'static str>) -> Seq<char> {
    cycle_heading() + joined(path, " -> "@)
}

/// One line `while building <frame>` for each frame, innermost first.
pub open spec fn frames_text(chain: Seq<&'static str>) -> Seq<char>
    decreases chain.len(),
{
    if chain.len() == 0 {
        Seq::empty()
    } else {
        frames_text(chain.drop_last()) + "while building "@ + chain.last()@ + "\n"@
    }
}

/// The text of a cause.
pub open spec fn cause_text(cause: ErrorCause) -> Seq<char> {
    match cause {
        ErrorCause::FactoryDropped => dropped_text(),
        ErrorCause::Cycle(cycle) => cycle_text(cycle.path_view()),
        ErrorCause::Failure(message) => message@,
    }
}

impl CycleError {
    /// The resources of the cycle, in the order in which they were requested.
    pub closed spec fn path_view(&self) -> Seq<&'static str> {
        self.path@
    }

    /// The cycle that closes when `frame` is requested again in a build
    /// context whose trail is `trail` and whose first request of `frame`
    /// began when the trail held `depth` frames: the trail from there on,
    /// then `frame` once more.
    pub fn closing(trail: &Vec<&'static str>, depth: usize, frame: &'static str) -> (cycle: Self)
        requires
            depth <= trail@.len(),
        ensures
            cycle.path_view() == trail@.skip(depth as int).push(frame),
    {
        let mut path: Vec<&'static str> = Vec::new();
        let mut i: usize = depth;
        while i < trail.len()
            invariant
                depth <= i <= trail@.len(),
                path@ == trail@.subrange(depth as int, i as int),
            decreases trail@.len() - i,
        {
            path.push(trail[i]);
            i = i + 1;
            assert(path@ =~= trail@.subrange(depth as int, i as int));
        }
        path.push(frame);
        assert(path@ =~= trail@.skip(depth as int).push(frame));
        CycleError { path }
    }

    /// The resources of the cycle, in the order in which they were requested.
    pub fn path(&self) -> (path: &[&'static str])
        ensures
            path@ == self.path_view(),
    {
        self.path.as_slice()
    }

    /// `dependency cycle detected: ` and the path, joined by ` -> `.
    pub fn render(&self) -> (text: String)
        ensures
            text@ == cycle_text(self.path_view()),
    {
        let mut text = String::new();
        text.append("dependency cycle detected: ");
        let mut i: usize = 0;
        while i < self.path.len()
            invariant
                0 <= i <= self.path@.len(),
                text@ == cycle_heading() + joined(self.path@.take(i as int), " -> "@),
            decreases self.path@.len() - i,
        {
            let ghost before = text@;
            if i > 0 {
                text.append(" -> ");
            }
            text.append(self.path[i]);
            assert(self.path@.take(i + 1).drop_last() =~= self.path@.take(i as int));
            proof {
                if i == 0 {
                    assert(self.path@.take(i + 1).len() == 1);
                    assert(before == cycle_heading());
                    assert(joined(self.path@.take(i + 1), " -> "@) == self.path@[0]@);
                }
            }
            i = i + 1;
        }
        assert(self.path@.take(self.path@.len() as int) =~= self.path@);
        text
    }
}

impl BuildError {
    /// The frames, innermost first.
    pub closed spec fn frames(&self) -> Seq<&'static str> {
        self.chain@
    }

    /// The underlying cause.
    pub closed spec fn cause_view(&self) -> ErrorCause {
        self.cause
    }

    /// This is the error of a dropped factory.
    pub open spec fn is_factory_dropped(&self) -> bool {
        &&& self.frames().len() == 0
        &&& self.cause_view() is FactoryDropped
    }

    /// The whole text of the error: a `while building` line per frame,
    /// innermost first, then `caused by: ` and the text of the cause.
    pub open spec fn text(&self) -> Seq<char> {
        frames_text(self.frames()) + "caused by: "@ + cause_text(self.cause_view())
    }

    /// The owning [`crate::DependencyFactory`] has been dropped, so the
    /// handle cannot resolve resources.
    pub fn factory_dropped() -> (error: Self)
        ensures
            error.is_factory_dropped(),
    {
        BuildError { chain: Vec::new(), cause: ErrorCause::FactoryDropped }
    }

    /// A failed `build`, described by `message`, before any frame is pushed.
    pub fn failure(message: String) -> (error: Self)
        ensures
            error.frames().len() == 0,
            error.cause_view() == ErrorCause::Failure(message),
    {
        BuildError { chain: Vec::new(), cause: ErrorCause::Failure(message) }
    }

    /// A dependency cycle, before any frame is pushed.
    pub fn cycle(cycle: CycleError) -> (error: Self)
        ensures
            error.frames().len() == 0,
            error.cause_view() == ErrorCause::Cycle(cycle),
    {
        BuildError { chain: Vec::new(), cause: ErrorCause::Cycle(cycle) }
    }

    /// The same error, seen from one build further out: `frame` is pushed as
    /// the outermost frame.
    pub fn with_frame(self, frame: &'static str) -> (error: Self)
        ensures
            error.frames() == self.frames().push(frame),
            error.cause_view() == self.cause_view(),
    {
        let mut error = self;
        error.chain.push(frame);
        error
    }

    /// The `while building` frames, innermost first.
    pub fn chain(&self) -> (chain: &[&'static str])
        ensures
            chain@ == self.frames(),
    {
        self.chain.as_slice()
    }

    /// The underlying cause.
    pub fn cause(&self) -> (cause: &ErrorCause)
        ensures
            *cause == self.cause_view(),
    {
        &self.cause
    }

    /// The cycle underneath, when the cause is a dependency cycle.
    pub fn cycle_cause(&self) -> (cycle: Option<&CycleError>)
        ensures
            match self.cause_view() {
                ErrorCause::Cycle(c) => cycle == Some(&c),
                _ => cycle is None,
            },
    {
        match &self.cause {
            ErrorCause::Cycle(c) => Some(c),
            _ => None,
        }
    }

    /// The text of the underlying cause.
    pub fn cause_text(&self) -> (text: String)
        ensures
            text@ == cause_text(self.cause_view()),
    {
        match &self.cause {
            ErrorCause::FactoryDropped => {
                let mut text = String::new();
                text.append("the DependencyFactory has been dropped");
                text
            },
            ErrorCause::Cycle(c) => c.render(),
            ErrorCause::Failure(message) => message.clone(),
        }
    }

    /// The whole text of the error: a `while building <frame>` line per
    /// frame, innermost first, then `caused by: ` and the text of the cause.
    pub fn render(&self) -> (text: String)
        ensures
            text@ == self.text(),
    {
        let mut text = String::new();
        let mut i: usize = 0;
        while i < self.chain.len()
            invariant
                0 <= i <= self.chain@.len(),
                text@ == frames_text(self.chain@.take(i as int)),
            decreases self.chain@.len() - i,
        {
            text.append("while building ");
            text.append(self.chain[i]);
            text.append("\n");
            assert(self.chain@.take(i + 1).drop_last() =~= self.chain@.take(i as int));
            i = i + 1;
        }
        assert(self.chain@.take(self.chain@.len() as int) =~= self.chain@);
        text.append("caused by: ");
        let cause = self.cause_text();
        text.append(cause.as_str());
        text
    }
}

/// A cycle runs back to where it began: when the trail holds, at the depth
/// where the first request of `frame` began, that request's own frame, the
/// path that `CycleError::closing` reports starts and ends with `frame`
/// and names at least the two requests of it.
pub proof fn law_cycle_path_returns_to_start(
    trail: Seq<&'static str>,
    depth: int,
    frame: &'static str,
)
    requires
        0 <= depth < trail.len(),
        trail[depth] == frame,
    ensures
        trail.skip(depth).push(frame).len() >= 2,
        trail.skip(depth).push(frame)[0] == frame,
        trail.skip(depth).push(frame).last() == frame,
{
}

} // verus!
