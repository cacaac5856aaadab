//! The agent responsible for a manifest.

use crate::text::{starts_with, equals};
use vstd::prelude::*;

verus! {

/// Agent responsible for the manifest.
///
/// This tipically represents the package manager used.
#[derive(Clone, Copy, Debug, PartialEq, Eq, Structural, Hash)]
pub enum Agent {
    Cargo,
    Npm,
    Pnpm,
    Tauri,
    Yarn,
}

/// The agent that a `package.json` names in its `packageManager` field: pnpm or yarn
/// where the field begins with their name, npm otherwise, and where it is absent.
pub open spec fn agent_of_package_manager(package_manager: Option<Seq<char>>) -> Agent {
    match package_manager {
        Some(pm) => if seq!['p', 'n', 'p', 'm'].is_prefix_of(pm) {
            Agent::Pnpm
        } else if seq!['y', 'a', 'r', 'n'].is_prefix_of(pm) {
            Agent::Yarn
        } else {
            Agent::Npm
        },
        None => Agent::Npm,
    }
}

/// The name of an agent, in capitals.
pub open spec fn agent_name(agent: Agent) -> Seq<char> {
    match agent {
        Agent::Cargo => seq!['C', 'A', 'R', 'G', 'O'],
        Agent::Npm => seq!['N', 'P', 'M'],
        Agent::Pnpm => seq!['P', 'N', 'P', 'M'],
        Agent::Tauri => seq!['T', 'A', 'U', 'R', 'I'],
        Agent::Yarn => seq!['Y', 'A', 'R', 'N'],
    }
}

/// The agent whose name is `name`, if any.
pub open spec fn agent_named(name: Seq<char>) -> Option<Agent> {
    if name == agent_name(Agent::Cargo) {
        Some(Agent::Cargo)
    } else if name == agent_name(Agent::Npm) {
        Some(Agent::Npm)
    } else if name == agent_name(Agent::Pnpm) {
        Some(Agent::Pnpm)
    } else if name == agent_name(Agent::Tauri) {
        Some(Agent::Tauri)
    } else if name == agent_name(Agent::Yarn) {
        Some(Agent::Yarn)
    } else {
        None
    }
}

/// Names and agents match one to one.
pub proof fn lemma_agent_names(agent: Agent)
    ensures
        agent_named(agent_name(agent)) == Some(agent),
{
}

/// A name reads as an agent only where it is exactly that agent's name.
pub proof fn lemma_agent_named(name: Seq<char>)
    ensures
        agent_named(name) matches Some(a) ==> name == agent_name(a),
        agent_named(name) is None ==> forall|a: Agent| name != agent_name(a),
{
}

/// A `package.json` is managed by pnpm where its `packageManager` field begins
/// with `pnpm`, by yarn where it begins with `yarn`, and by npm otherwise, also
/// where the field is absent; never by Cargo or Tauri.
pub proof fn lemma_agent_of_package_manager(package_manager: Option<Seq<char>>)
    ensures
        agent_of_package_manager(package_manager) == Agent::Pnpm <==> (package_manager matches Some(pm)
            && pm.len() >= 4 && pm[0] == 'p' && pm[1] == 'n' && pm[2] == 'p' && pm[3] == 'm'),
        agent_of_package_manager(package_manager) == Agent::Yarn <==> (package_manager matches Some(pm)
            && pm.len() >= 4 && pm[0] == 'y' && pm[1] == 'a' && pm[2] == 'r' && pm[3] == 'n'),
        agent_of_package_manager(package_manager) != Agent::Cargo,
        agent_of_package_manager(package_manager) != Agent::Tauri,
{
    if let Some(pm) = package_manager {
        let p = seq!['p', 'n', 'p', 'm'];
        let y = seq!['y', 'a', 'r', 'n'];
        if pm.len() >= 4 && pm[0] == 'p' && pm[1] == 'n' && pm[2] == 'p' && pm[3] == 'm' {
            assert(pm.take(4) =~= p);
            assert(p.is_prefix_of(pm));
        }
        if pm.len() >= 4 && pm[0] == 'y' && pm[1] == 'a' && pm[2] == 'r' && pm[3] == 'n' {
            assert(pm.take(4) =~= y);
            assert(y.is_prefix_of(pm));
        }
        if p.is_prefix_of(pm) {
            assert(pm[0] == p[0] && pm[1] == p[1] && pm[2] == p[2] && pm[3] == p[3]);
        }
        if y.is_prefix_of(pm) {
            assert(pm[0] == y[0] && pm[1] == y[1] && pm[2] == y[2] && pm[3] == y[3]);
        }
    }
}

impl Agent {
    /// The agent of a `package.json` whose `packageManager` field is `package_manager`.
    pub fn from_package_manager(package_manager: Option<&str>) -> (r: Agent)
        ensures
            r == agent_of_package_manager(
                match package_manager {
                    Some(pm) => Some(pm@),
                    None => None,
                },
            ),
    {
        match package_manager {
            Some(pm) => if starts_with(pm, &['p', 'n', 'p', 'm']) {
                Agent::Pnpm
            } else if starts_with(pm, &['y', 'a', 'r', 'n']) {
                Agent::Yarn
            } else {
                Agent::Npm
            },
            None => Agent::Npm,
        }
    }

    /// The agent whose name, in capitals, is `name`.
    pub fn from_name(name: &str) -> (r: Option<Agent>)
        ensures
            r == agent_named(name@),
    {
        if equals(name, &['C', 'A', 'R', 'G', 'O']) {
            Some(Agent::Cargo)
        } else if equals(name, &['N', 'P', 'M']) {
            Some(Agent::Npm)
        } else if equals(name, &['P', 'N', 'P', 'M']) {
            Some(Agent::Pnpm)
        } else if equals(name, &['T', 'A', 'U', 'R', 'I']) {
            Some(Agent::Tauri)
        } else if equals(name, &['Y', 'A', 'R', 'N']) {
            Some(Agent::Yarn)
        } else {
            None
        }
    }

    /// The name of the agent, in capitals.
    pub fn to_string(&self) -> (r: String)
        ensures
            r@ == agent_name(*self),
    {
        match self {
            Agent::Cargo => crate::text::string_of(&['C', 'A', 'R', 'G', 'O']),
            Agent::Npm => crate::text::string_of(&['N', 'P', 'M']),
            Agent::Pnpm => crate::text::string_of(&['P', 'N', 'P', 'M']),
            Agent::Tauri => crate::text::string_of(&['T', 'A', 'U', 'R', 'I']),
            Agent::Yarn => crate::text::string_of(&['Y', 'A', 'R', 'N']),
        }
    }

    /// Whether the agent is a package manager of the Node.js ecosystem.
    pub fn is_node(&self) -> (b: bool)
        ensures
            b == (*self == Agent::Npm || *self == Agent::Pnpm || *self == Agent::Yarn),
    {
        matches!(self, Agent::Npm | Agent::Pnpm | Agent::Yarn)
    }
}

} // verus!
