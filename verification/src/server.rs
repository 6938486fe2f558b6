//! What the server decides outside of any connection: which canvas it starts
//! with, which background tasks its options ask for, and when the end of a
//! task ends the process.

use vstd::prelude::*;
use crate::pixmap::{blank_cells, GenericError, Pixmap};

verus! {

/// The exit code of a clean shutdown.
pub const EXIT_CLEAN: u8 = 0;

/// The exit code when the server could not start.
pub const EXIT_STARTUP_FAILURE: u8 = 1;

/// The exit code when no listener is left.
pub const EXIT_RUNTIME_FAILURE: u8 = 2;

/// The number of workers that receive datagrams on the one socket.
pub const UDP_WORKERS: usize = 16;

/// What the command line asks of the server. Paths and addresses stay with
/// the caller; here it only counts whether they were given.
#[derive(Clone, Copy, Debug, PartialEq, Eq)]
pub struct ServerOptions {
    pub width: usize,
    pub height: usize,
    /// A file to write snapshots to was named.
    pub snapshot_file: bool,
    pub snapshot_interval_secs: u64,
    /// A destination for the RTSP stream was named.
    pub rtsp_destination: bool,
    /// A destination for the RTMP stream was named.
    pub rtmp_destination: bool,
    pub stream_framerate: usize,
    /// A framebuffer device was named.
    pub framebuffer_device: bool,
    pub framebuffer_framerate: usize,
    /// An address for the TCP listener was named.
    pub tcp_bind: bool,
    /// An address for the UDP listener was named.
    pub udp_bind: bool,
    /// An address for the WebSocket listener was named.
    pub ws_bind: bool,
}

/// A background task of the server.
#[derive(Clone, Copy, Debug, PartialEq, Eq)]
pub enum Task {
    /// Writes a snapshot of the canvas to a file at every interval.
    SnapshotSink { interval_secs: u64 },
    /// Feeds the canvas to the video encoder, for the destinations given.
    VideoSink { rtsp: bool, rtmp: bool, framerate: usize },
    /// Renders the canvas on a framebuffer device.
    FramebufferSink { framerate: usize },
    /// Accepts stream connections.
    TcpListener,
    /// Receives datagrams with so many workers.
    UdpListener { workers: usize },
    /// Accepts WebSocket sessions.
    WebSocketListener,
}

/// Why the server cannot start with its options.
#[derive(Clone, Copy, Debug, PartialEq, Eq)]
pub enum ConfigError {
    /// A canvas cannot have these dimensions.
    InvalidSize(usize, usize),
    /// No address to listen on was named.
    NoListeners,
}

/// Whether a task serves clients, as opposed to a sink.
pub open spec fn is_listener(task: Task) -> bool {
    task is TcpListener || task is UdpListener || task is WebSocketListener
}

/// The kind of a background task.
#[derive(Clone, Copy, Debug, PartialEq, Eq, Structural)]
pub enum TaskKind {
    Listener,
    Sink,
}

impl Task {
    /// The kind of the task: a listener serves clients, every other task is a sink.
    pub fn kind(&self) -> (kind: TaskKind)
        ensures
            (kind == TaskKind::Listener) == is_listener(*self),
    {
        match *self {
            Task::TcpListener | Task::UdpListener { .. } | Task::WebSocketListener => {
                TaskKind::Listener
            },
            Task::SnapshotSink { .. } | Task::VideoSink { .. } | Task::FramebufferSink { .. } => {
                TaskKind::Sink
            },
        }
    }
}

/// The part of the list that an option contributes: its task, or nothing.
pub open spec fn when(wanted: bool, task: Task) -> Seq<Task> {
    if wanted {
        seq![task]
    } else {
        Seq::<Task>::empty()
    }
}

/// The sinks that the options ask for: the snapshot file, the video stream
/// and the framebuffer, in this order.
pub open spec fn planned_sinks(options: ServerOptions) -> Seq<Task> {
    when(options.snapshot_file, Task::SnapshotSink { interval_secs: options.snapshot_interval_secs })
        + when(
        options.rtsp_destination || options.rtmp_destination,
        Task::VideoSink {
            rtsp: options.rtsp_destination,
            rtmp: options.rtmp_destination,
            framerate: options.stream_framerate,
        },
    ) + when(
        options.framebuffer_device,
        Task::FramebufferSink { framerate: options.framebuffer_framerate },
    )
}

/// The listeners that the options ask for: TCP, UDP and WebSocket, in this
/// order.
pub open spec fn planned_listeners(options: ServerOptions) -> Seq<Task> {
    when(options.tcp_bind, Task::TcpListener) + when(
        options.udp_bind,
        Task::UdpListener { workers: UDP_WORKERS },
    ) + when(options.ws_bind, Task::WebSocketListener)
}

/// The tasks that the options ask for, in the order in which they start:
/// the sinks first, then the listeners.
pub open spec fn planned_tasks(options: ServerOptions) -> Seq<Task> {
    planned_sinks(options) + planned_listeners(options)
}

/// What the server does with its options: the tasks to start, or the reason
/// why it cannot start.
pub open spec fn plan_of(options: ServerOptions) -> Result<Seq<Task>, ConfigError> {
    if options.width == 0 || options.height == 0 {
        Err(ConfigError::InvalidSize(options.width, options.height))
    } else if !(options.tcp_bind || options.udp_bind || options.ws_bind) {
        Err(ConfigError::NoListeners)
    } else {
        Ok(planned_tasks(options))
    }
}

/// Checks the options and lists the background tasks to start.
pub fn plan_server(options: &ServerOptions) -> (res: Result<Vec<Task>, ConfigError>)
    ensures
        match plan_of(*options) {
            Ok(tasks) => res is Ok && res->Ok_0@ == tasks,
            Err(e) => res is Err && res->Err_0 == e,
        },
{
    if options.width == 0 || options.height == 0 {
        return Err(ConfigError::InvalidSize(options.width, options.height));
    }
    if !(options.tcp_bind || options.udp_bind || options.ws_bind) {
        return Err(ConfigError::NoListeners);
    }
    let mut tasks: Vec<Task> = Vec::new();
    if options.snapshot_file {
        tasks.push(Task::SnapshotSink { interval_secs: options.snapshot_interval_secs });
    }
    if options.rtsp_destination || options.rtmp_destination {
        tasks.push(
            Task::VideoSink {
                rtsp: options.rtsp_destination,
                rtmp: options.rtmp_destination,
                framerate: options.stream_framerate,
            },
        );
    }
    if options.framebuffer_device {
        tasks.push(Task::FramebufferSink { framerate: options.framebuffer_framerate });
    }
    if options.tcp_bind {
        tasks.push(Task::TcpListener);
    }
    if options.udp_bind {
        tasks.push(Task::UdpListener { workers: UDP_WORKERS });
    }
    if options.ws_bind {
        tasks.push(Task::WebSocketListener);
    }
    assert(tasks@ =~= planned_tasks(*options));
    Ok(tasks)
}

/// The exit code for options that the server cannot start with.
pub fn startup_exit_code(error: &ConfigError) -> (code: u8)
    ensures
        code == EXIT_STARTUP_FAILURE,
{
    EXIT_STARTUP_FAILURE
}

/// A plan that the server accepts has a listener in it.
pub proof fn law_plan_has_listener(options: ServerOptions)
    ensures
        plan_of(options) is Ok ==> exists|i: int|
            0 <= i < planned_tasks(options).len() && is_listener(
                #[trigger] planned_tasks(options)[i],
            ),
{
    if plan_of(options) is Ok {
        let tasks = planned_tasks(options);
        let n = planned_sinks(options).len() as int;
        assert(planned_listeners(options).len() >= 1);
        assert(tasks[n] == planned_listeners(options)[0]);
        assert(0 <= n < tasks.len() && is_listener(tasks[n]));
    }
}

/// Whether a canvas was loaded that has the dimensions asked for.
pub open spec fn usable(loaded: Option<Pixmap>, width: usize, height: usize) -> bool {
    loaded is Some && loaded->Some_0.width() == width && loaded->Some_0.height() == height
}

/// The canvas that the server starts with: the one loaded from a snapshot
/// where it has the dimensions asked for, a blank one otherwise. The flag
/// says that a loaded canvas was set aside for its dimensions.
pub fn initial_canvas(loaded: Option<Pixmap>, width: usize, height: usize) -> (res: Result<
    (Pixmap, bool),
    GenericError,
>)
    requires
        width * height <= usize::MAX,
    ensures
        usable(loaded, width, height) ==> res is Ok && res->Ok_0.0@ == loaded->Some_0@
            && res->Ok_0.0.width() == width && res->Ok_0.0.height() == height && !res->Ok_0.1,
        !usable(loaded, width, height) && (width == 0 || height == 0) ==> res is Err
            && res->Err_0 == GenericError::InvalidSize(width, height),
        !usable(loaded, width, height) && width >= 1 && height >= 1 ==> res is Ok
            && res->Ok_0.0@ == blank_cells((width * height) as nat) && res->Ok_0.0.width()
            == width && res->Ok_0.0.height() == height && res->Ok_0.1 == loaded is Some,
{
    match loaded {
        None => match Pixmap::new(width, height) {
            Ok(pixmap) => Ok((pixmap, false)),
            Err(e) => Err(e),
        },
        Some(pixmap) => {
            let size: (usize, usize) = pixmap.get_size();
            if size.0 == width && size.1 == height {
                Ok((pixmap, false))
            } else {
                match Pixmap::new(width, height) {
                    Ok(blank) => Ok((blank, true)),
                    Err(e) => Err(e),
                }
            }
        },
    }
}

/// What the supervisor does when a task has ended.
#[derive(Clone, Copy, Debug, PartialEq, Eq)]
pub enum Verdict {
    /// The process goes on.
    KeepRunning,
    /// The process ends with this exit code.
    Exit(u8),
}

/// The supervisor's view of the background tasks: how many of each kind
/// still run, and whether a shutdown was asked for.
#[derive(Clone, Copy, Debug, PartialEq, Eq)]
pub struct Supervisor {
    pub listeners: usize,
    pub sinks: usize,
    pub shutting_down: bool,
}

/// The supervisor after a task of the given kind has ended.
pub open spec fn after_task_ended(state: Supervisor, kind: TaskKind) -> Supervisor {
    match kind {
        TaskKind::Listener => Supervisor {
            listeners: if state.listeners > 0 {
                (state.listeners - 1) as usize
            } else {
                0
            },
            ..state
        },
        TaskKind::Sink => Supervisor {
            sinks: if state.sinks > 0 {
                (state.sinks - 1) as usize
            } else {
                0
            },
            ..state
        },
    }
}

/// What follows from the tasks that still run. During a shutdown the process
/// ends cleanly once every task has ended. Otherwise it goes on as long as a
/// listener runs, and fails when none is left.
pub open spec fn verdict_of(state: Supervisor) -> Verdict {
    if state.shutting_down {
        if state.listeners == 0 && state.sinks == 0 {
            Verdict::Exit(EXIT_CLEAN)
        } else {
            Verdict::KeepRunning
        }
    } else if state.listeners == 0 {
        Verdict::Exit(EXIT_RUNTIME_FAILURE)
    } else {
        Verdict::KeepRunning
    }
}

impl Supervisor {
    /// The supervisor of the tasks that were started.
    pub fn new(tasks: &[Task]) -> (state: Supervisor)
        ensures
            !state.shutting_down,
            state.listeners + state.sinks == tasks@.len(),
            state.listeners == tasks@.filter(|task: Task| is_listener(task)).len(),
    {
        let mut listeners: usize = 0;
        let mut sinks: usize = 0;
        let mut i: usize = 0;
        while i < tasks.len()
            invariant
                i <= tasks@.len(),
                listeners + sinks == i,
                listeners == tasks@.take(i as int).filter(|task: Task| is_listener(task)).len(),
            decreases tasks@.len() - i,
        {
            proof {
                let head = tasks@.take(i as int);
                let next = tasks@.take(i + 1);
                assert(next =~= head.push(tasks@[i as int]));
                assert(next.drop_last() =~= head);
                reveal(Seq::filter);
            }
            match tasks[i] {
                Task::TcpListener | Task::UdpListener { .. } | Task::WebSocketListener => {
                    listeners = listeners + 1;
                },
                _ => {
                    sinks = sinks + 1;
                },
            }
            i = i + 1;
        }
        proof {
            assert(tasks@.take(i as int) =~= tasks@);
        }
        Supervisor { listeners, sinks, shutting_down: false }
    }

    /// Notes that a shutdown was asked for, and says whether the process can
    /// end at once.
    pub fn shutdown_requested(&mut self) -> (verdict: Verdict)
        ensures
            *final(self) == (Supervisor { shutting_down: true, ..*old(self) }),
            verdict == verdict_of(*final(self)),
    {
        self.shutting_down = true;
        self.verdict()
    }

    /// Notes that a task has ended. `failed` says whether it ended with an
    /// error, which is then to be logged: the first part of the result.
    pub fn task_ended(&mut self, kind: TaskKind, failed: bool) -> (res: (bool, Verdict))
        ensures
            *final(self) == after_task_ended(*old(self), kind),
            res.0 == failed,
            res.1 == verdict_of(*final(self)),
    {
        match kind {
            TaskKind::Listener => {
                if self.listeners > 0 {
                    self.listeners = self.listeners - 1;
                }
            },
            TaskKind::Sink => {
                if self.sinks > 0 {
                    self.sinks = self.sinks - 1;
                }
            },
        }
        (failed, self.verdict())
    }

    /// What follows from the tasks that still run.
    pub fn verdict(&self) -> (verdict: Verdict)
        ensures
            verdict == verdict_of(*self),
    {
        if self.shutting_down {
            if self.listeners == 0 && self.sinks == 0 {
                Verdict::Exit(EXIT_CLEAN)
            } else {
                Verdict::KeepRunning
            }
        } else if self.listeners == 0 {
            Verdict::Exit(EXIT_RUNTIME_FAILURE)
        } else {
            Verdict::KeepRunning
        }
    }
}

/// The end of a sink never ends the process while a listener runs and no
/// shutdown was asked for: sinks fail on their own.
pub proof fn law_sink_failure_is_contained(state: Supervisor)
    requires
        state.listeners >= 1,
        !state.shutting_down,
    ensures
        verdict_of(after_task_ended(state, TaskKind::Sink)) == Verdict::KeepRunning,
{
}

} // verus!
