//! Which keys and buttons are bound, and how a configuration is read again.
use crate::action::{ActionView, PointerOp};
use crate::config::{key_symbols, BindingDef, Config};
use crate::state::{Settings, State, StateView, Walk};
use vstd::prelude::*;

verus! {

/// The left button of the pointer.
pub const BTN_LEFT: u32 = 0x110;

/// The right button of the pointer.
pub const BTN_RIGHT: u32 = 0x111;

/// The modifier with which the buttons are bound.
pub const SUPER: u32 = 64;

/// The bindings to make on a seat: keys, and buttons of the pointer with their modifiers.
pub struct BindingPlan {
    pub seat: u64,
    pub keys: Vec<BindingDef>,
    pub buttons: Vec<(u32, u32, PointerOp)>,
}

/// The bindings to make on a seat, over sequences.
#[verifier::ext_equal]
pub struct PlanView {
    pub seat: u64,
    pub keys: Seq<(u32, u32, ActionView)>,
    pub buttons: Seq<(u32, u32, PointerOp)>,
}

impl View for BindingPlan {
    type V = PlanView;

    open spec fn view(&self) -> PlanView {
        PlanView {
            seat: self.seat,
            keys: crate::config::def_views(self.keys@),
            buttons: self.buttons@,
        }
    }
}

/// What is inside an optional plan.
pub open spec fn plan_view(plan: Option<BindingPlan>) -> Option<PlanView> {
    match plan {
        Some(p) => Some(p@),
        None => None,
    }
}

impl StateView {
    /// The bindings to make, if there is a seat and the compositor can bind keys: those of the
    /// settings, and the left and the right button to move and resize windows.
    pub open spec fn binding_plan(self, walk: Walk) -> Option<PlanView> {
        if walk.seats@.len() > 0 && self.globals.xkb {
            Some(
                PlanView {
                    seat: walk.seats@[0],
                    keys: self.settings.binding_defs,
                    buttons: seq![
                        (BTN_LEFT, SUPER, PointerOp::Move),
                        (BTN_RIGHT, SUPER, PointerOp::Resize),
                    ],
                },
            )
        } else {
            None
        }
    }

    /// The state with the settings of another configuration.
    pub open spec fn reconfigured(self, cfg: Config, keysyms: Seq<u32>) -> StateView {
        StateView { settings: crate::state::settings_of(cfg, keysyms), ..self }
    }
}

impl State {
    /// The bindings to make on the first seat of a walk.
    pub fn register_bindings(&self, walk: &Walk) -> (plan: Option<BindingPlan>)
        ensures
            plan_view(plan) == self@.binding_plan(*walk),
    {
        if walk.seats.len() == 0 || !self.globals.xkb {
            return None;
        }
        let keys: Vec<BindingDef> = crate::config::copy_definitions(&self.settings.binding_defs);
        let mut buttons: Vec<(u32, u32, PointerOp)> = Vec::new();
        buttons.push((BTN_LEFT, SUPER, PointerOp::Move));
        buttons.push((BTN_RIGHT, SUPER, PointerOp::Resize));
        Some(BindingPlan { seat: walk.seats[0], keys, buttons })
    }

    /// Takes the settings of another configuration: the bindings to make now, in place of those
    /// that were made before. `look_up` gives the symbols of keys by their names, or zero.
    pub fn reload_config<F: Fn(&str) -> u32>(&mut self, cfg: &Config, look_up: &F, walk: &Walk) -> (
    plan: Option<BindingPlan>)
        requires
            crate::state::config_known(*cfg, *look_up),
        ensures
            exists|keysyms: Seq<u32>| #[trigger]
                crate::state::config_symbols(*cfg, *look_up, keysyms) && final(self)@ == old(
                    self,
                )@.reconfigured(*cfg, keysyms) && plan_view(plan) == old(self)@.reconfigured(
                    *cfg,
                    keysyms,
                ).binding_plan(*walk),
            old(self)@.wf() ==> final(self)@.wf(),
    {
        let keysyms: Vec<u32> = key_symbols(&cfg.bindings, look_up);
        assert(crate::state::config_symbols(*cfg, *look_up, keysyms@));
        self.reconfigure(cfg, &keysyms, walk)
    }

    /// Takes the settings of another configuration, where `keysyms` holds the symbol of the key of
    /// each binding, or zero: the bindings to make now, in place of those that were made before.
    pub fn reconfigure(&mut self, cfg: &Config, keysyms: &Vec<u32>, walk: &Walk) -> (plan: Option<
        BindingPlan,
    >)
        requires
            crate::state::config_readable(*cfg, keysyms@),
        ensures
            final(self)@ == old(self)@.reconfigured(*cfg, keysyms@),
            plan_view(plan) == old(self)@.reconfigured(*cfg, keysyms@).binding_plan(*walk),
            old(self)@.wf() ==> final(self)@.wf(),
    {
        self.settings = Settings::from_config(cfg, keysyms);
        self.register_bindings(walk)
    }
}

} // verus!
