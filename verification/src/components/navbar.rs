//! The connection pill in the top bar.
use vstd::prelude::*;
use crate::models::live_gateway::OperatorConnectionState;

verus! {

/// The classes and label of the connection pill.
pub struct StatusPill {
    pub class: &'static str,
    pub dot_class: &'static str,
    pub label: &'static str,
}

pub open spec fn pill_label(level: OperatorConnectionState) -> Seq<char> {
    match level {
        OperatorConnectionState::Connected => "Connected"@,
        OperatorConnectionState::Degraded => "Degraded"@,
        OperatorConnectionState::Disconnected => "Disconnected"@,
        OperatorConnectionState::Connecting => "Connecting"@,
    }
}

pub open spec fn pill_class(level: OperatorConnectionState) -> Seq<char> {
    match level {
        OperatorConnectionState::Connected => "status-pill inline-flex items-center gap-3 rounded-full border border-emerald-300/20 bg-emerald-300/10 px-4 py-3 text-sm font-medium text-emerald-100 shadow-[0_12px_32px_rgba(2,6,23,0.28)] backdrop-blur-xl"@,
        OperatorConnectionState::Degraded => "status-pill inline-flex items-center gap-3 rounded-full border border-amber-400/20 bg-amber-400/10 px-4 py-3 text-sm font-medium text-amber-100 shadow-[0_12px_32px_rgba(2,6,23,0.28)] backdrop-blur-xl"@,
        OperatorConnectionState::Disconnected => "status-pill inline-flex items-center gap-3 rounded-full border border-rose-300/20 bg-rose-300/10 px-4 py-3 text-sm font-medium text-rose-100 shadow-[0_12px_32px_rgba(2,6,23,0.28)] backdrop-blur-xl"@,
        OperatorConnectionState::Connecting => "status-pill status-pill--connecting inline-flex items-center gap-3 rounded-full border border-white/12 bg-white/6 px-4 py-3 text-sm font-medium text-slate-100 shadow-[0_12px_32px_rgba(2,6,23,0.28)] backdrop-blur-xl"@,
    }
}

pub open spec fn pill_dot_class(level: OperatorConnectionState) -> Seq<char> {
    match level {
        OperatorConnectionState::Connected => "inline-block shrink-0 text-[1rem] leading-none text-emerald-300 drop-shadow-[0_0_8px_rgba(110,231,183,0.95)]"@,
        OperatorConnectionState::Degraded => "inline-block shrink-0 text-[1rem] leading-none text-amber-300 drop-shadow-[0_0_8px_rgba(252,211,77,0.9)]"@,
        OperatorConnectionState::Disconnected => "inline-block shrink-0 text-[1rem] leading-none text-rose-300 drop-shadow-[0_0_8px_rgba(253,164,175,0.9)]"@,
        OperatorConnectionState::Connecting => "inline-block shrink-0 text-[1rem] leading-none text-amber-300 drop-shadow-[0_0_8px_rgba(252,211,77,0.9)]"@,
    }
}

/// The pill for a connection state.
pub fn status_pill(level: OperatorConnectionState) -> (r: StatusPill)
    ensures
        r.label@ == pill_label(level),
        r.class@ == pill_class(level),
        r.dot_class@ == pill_dot_class(level),
{
    match level {
        OperatorConnectionState::Connected => StatusPill {
            class: "status-pill inline-flex items-center gap-3 rounded-full border border-emerald-300/20 bg-emerald-300/10 px-4 py-3 text-sm font-medium text-emerald-100 shadow-[0_12px_32px_rgba(2,6,23,0.28)] backdrop-blur-xl",
            dot_class: "inline-block shrink-0 text-[1rem] leading-none text-emerald-300 drop-shadow-[0_0_8px_rgba(110,231,183,0.95)]",
            label: "Connected",
        },
        OperatorConnectionState::Degraded => StatusPill {
            class: "status-pill inline-flex items-center gap-3 rounded-full border border-amber-400/20 bg-amber-400/10 px-4 py-3 text-sm font-medium text-amber-100 shadow-[0_12px_32px_rgba(2,6,23,0.28)] backdrop-blur-xl",
            dot_class: "inline-block shrink-0 text-[1rem] leading-none text-amber-300 drop-shadow-[0_0_8px_rgba(252,211,77,0.9)]",
            label: "Degraded",
        },
        OperatorConnectionState::Disconnected => StatusPill {
            class: "status-pill inline-flex items-center gap-3 rounded-full border border-rose-300/20 bg-rose-300/10 px-4 py-3 text-sm font-medium text-rose-100 shadow-[0_12px_32px_rgba(2,6,23,0.28)] backdrop-blur-xl",
            dot_class: "inline-block shrink-0 text-[1rem] leading-none text-rose-300 drop-shadow-[0_0_8px_rgba(253,164,175,0.9)]",
            label: "Disconnected",
        },
        OperatorConnectionState::Connecting => StatusPill {
            class: "status-pill status-pill--connecting inline-flex items-center gap-3 rounded-full border border-white/12 bg-white/6 px-4 py-3 text-sm font-medium text-slate-100 shadow-[0_12px_32px_rgba(2,6,23,0.28)] backdrop-blur-xl",
            dot_class: "inline-block shrink-0 text-[1rem] leading-none text-amber-300 drop-shadow-[0_0_8px_rgba(252,211,77,0.9)]",
            label: "Connecting",
        },
    }
}

} // verus!
