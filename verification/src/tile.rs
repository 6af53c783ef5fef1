//! The rhythm of a tile: what it does on each second.
use vstd::prelude::*;

verus! {

/// Seconds between two metric reports.
pub const METRICS_PERIOD: u64 = 5;

/// Seconds between two status lines.
pub const STATUS_PERIOD: u64 = 30;

/// What a tile counts from second to second.
#[derive(Debug, Clone, Copy, PartialEq, Eq, Structural)]
pub struct MainLoop {
    /// Seconds since the start.
    pub tick_count: u64,
    /// Seconds since the last metric report.
    pub metrics_tick: u64,
}

/// What a tile does in one second.
#[derive(Debug, Clone, Copy, PartialEq, Eq, Structural)]
pub struct TickPlan {
    /// The game is over and this replica leads: have every tile shut
    /// down, then leave. Nothing else is done in that second.
    pub shut_down: bool,
    /// Bring the open floods in line with the committed targets.
    pub sync_network: bool,
    /// Propose a metric report.
    pub report_metrics: bool,
    /// Run the evaluator and propose what it returns.
    pub evaluate: bool,
    /// Print a status line.
    pub show_status: bool,
}

/// The counters after a second, and what is done in it.
pub open spec fn next_tick(l: MainLoop, is_leader: bool, game_over: bool) -> (MainLoop, TickPlan) {
    let tick_count = if l.tick_count == u64::MAX {
        0
    } else {
        (l.tick_count + 1) as u64
    };
    let metrics_tick = if l.metrics_tick == u64::MAX {
        0
    } else {
        (l.metrics_tick + 1) as u64
    };
    if game_over && is_leader {
        (
            MainLoop { tick_count, metrics_tick },
            TickPlan {
                shut_down: true,
                sync_network: false,
                report_metrics: false,
                evaluate: false,
                show_status: false,
            },
        )
    } else {
        let report = metrics_tick >= METRICS_PERIOD;
        (
            MainLoop {
                tick_count,
                metrics_tick: if report {
                    0
                } else {
                    metrics_tick
                },
            },
            TickPlan {
                shut_down: false,
                sync_network: true,
                report_metrics: report,
                evaluate: is_leader,
                show_status: tick_count % STATUS_PERIOD == 0,
            },
        )
    }
}

impl MainLoop {
    /// The counters of a tile that starts.
    pub fn new() -> (l: Self)
        ensures
            l == (MainLoop { tick_count: 0, metrics_tick: 0 }),
    {
        MainLoop { tick_count: 0, metrics_tick: 0 }
    }

    /// Counts one second and says what to do in it. Every replica syncs
    /// its floods each second and reports metrics each fifth; only the
    /// leader evaluates, and only the leader shuts the game down.
    pub fn on_tick(&mut self, is_leader: bool, game_over: bool) -> (plan: TickPlan)
        ensures
            (*final(self), plan) == next_tick(*old(self), is_leader, game_over),
    {
        self.tick_count = self.tick_count.wrapping_add(1);
        self.metrics_tick = self.metrics_tick.wrapping_add(1);
        if game_over && is_leader {
            return TickPlan {
                shut_down: true,
                sync_network: false,
                report_metrics: false,
                evaluate: false,
                show_status: false,
            };
        }
        let report = self.metrics_tick >= METRICS_PERIOD;
        if report {
            self.metrics_tick = 0;
        }
        TickPlan {
            shut_down: false,
            sync_network: true,
            report_metrics: report,
            evaluate: is_leader,
            show_status: self.tick_count % STATUS_PERIOD == 0,
        }
    }
}

} // verus!
