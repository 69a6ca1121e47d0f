//! Closed wire vocabularies of the schema. Each enum carries its own wire
//! case convention, reproduced literally: lowercase, snake_case, or
//! kebab-case, and one vocabulary spelled as bare variant names.

use vstd::prelude::*;
use crate::error::BpError;
use crate::json::str_eq;

verus! {

/// The kind of a circuit signal. Wire case: lowercase.
#[derive(Debug, Clone, Copy, PartialEq, Eq, Structural)]
pub enum SignalType {
    /// An item signal.
    Item,
    /// A fluid signal.
    Fluid,
    /// A virtual signal.
    Virtual,
}

impl SignalType {
    /// The wire spelling of this value.
    pub open spec fn spec_wire(self) -> Seq<char> {
        match self {
            SignalType::Item => "item"@,
            SignalType::Fluid => "fluid"@,
            SignalType::Virtual => "virtual"@,
        }
    }

    /// The wire spelling of this value.
    pub fn wire_name(&self) -> (r: &'static str)
        ensures
            r@ == self.spec_wire(),
    {
        match self {
            SignalType::Item => "item",
            SignalType::Fluid => "fluid",
            SignalType::Virtual => "virtual",
        }
    }

    /// Parse a wire spelling; an unrecognized one is a schema error.
    pub fn from_wire(s: &str) -> (r: Result<Self, BpError>)
        ensures
            r matches Ok(w) ==> w.spec_wire() == s@,
            forall|v: Self| s@ == (#[trigger] v.spec_wire()) ==> r is Ok,
            r matches Err(e) ==> e is SchemaError,
    {
        if str_eq(s, "item") {
            Ok(SignalType::Item)
        } else if str_eq(s, "fluid") {
            Ok(SignalType::Fluid)
        } else if str_eq(s, "virtual") {
            Ok(SignalType::Virtual)
        } else {
            Err(BpError::SchemaError(String::from_str("unknown signal type")))
        }
    }
}

/// The type of an underground belt or loader. Wire case: lowercase.
#[derive(Debug, Clone, Copy, PartialEq, Eq, Structural)]
pub enum IoType {
    /// Inserts into an inventory.
    Input,
    /// Removes from an inventory.
    Output,
}

impl IoType {
    /// The wire spelling of this value.
    pub open spec fn spec_wire(self) -> Seq<char> {
        match self {
            IoType::Input => "input"@,
            IoType::Output => "output"@,
        }
    }

    /// The wire spelling of this value.
    pub fn wire_name(&self) -> (r: &'static str)
        ensures
            r@ == self.spec_wire(),
    {
        match self {
            IoType::Input => "input",
            IoType::Output => "output",
        }
    }

    /// Parse a wire spelling; an unrecognized one is a schema error.
    pub fn from_wire(s: &str) -> (r: Result<Self, BpError>)
        ensures
            r matches Ok(w) ==> w.spec_wire() == s@,
            forall|v: Self| s@ == (#[trigger] v.spec_wire()) ==> r is Ok,
            r matches Err(e) ==> e is SchemaError,
    {
        if str_eq(s, "input") {
            Ok(IoType::Input)
        } else if str_eq(s, "output") {
            Ok(IoType::Output)
        } else {
            Err(BpError::SchemaError(String::from_str("unknown io type")))
        }
    }
}

/// The input/output priority of a splitter. Wire case: lowercase.
#[derive(Debug, Clone, Copy, PartialEq, Eq, Structural)]
pub enum IoPriority {
    /// Priority to/from the right.
    Right,
    /// Priority to/from the left.
    Left,
}

impl IoPriority {
    /// The wire spelling of this value.
    pub open spec fn spec_wire(self) -> Seq<char> {
        match self {
            IoPriority::Right => "right"@,
            IoPriority::Left => "left"@,
        }
    }

    /// The wire spelling of this value.
    pub fn wire_name(&self) -> (r: &'static str)
        ensures
            r@ == self.spec_wire(),
    {
        match self {
            IoPriority::Right => "right",
            IoPriority::Left => "left",
        }
    }

    /// Parse a wire spelling; an unrecognized one is a schema error.
    pub fn from_wire(s: &str) -> (r: Result<Self, BpError>)
        ensures
            r matches Ok(w) ==> w.spec_wire() == s@,
            forall|v: Self| s@ == (#[trigger] v.spec_wire()) ==> r is Ok,
            r matches Err(e) ==> e is SchemaError,
    {
        if str_eq(s, "right") {
            Ok(IoPriority::Right)
        } else if str_eq(s, "left") {
            Ok(IoPriority::Left)
        } else {
            Err(BpError::SchemaError(String::from_str("unknown priority")))
        }
    }
}

/// The mode of a filter inserter. Wire case: lowercase.
#[derive(Debug, Clone, Copy, PartialEq, Eq, Structural)]
pub enum FilterMode {
    /// Only allow the selected items.
    Whitelist,
    /// Allow everything except the selected items.
    Blacklist,
}

impl FilterMode {
    /// The wire spelling of this value.
    pub open spec fn spec_wire(self) -> Seq<char> {
        match self {
            FilterMode::Whitelist => "whitelist"@,
            FilterMode::Blacklist => "blacklist"@,
        }
    }

    /// The wire spelling of this value.
    pub fn wire_name(&self) -> (r: &'static str)
        ensures
            r@ == self.spec_wire(),
    {
        match self {
            FilterMode::Whitelist => "whitelist",
            FilterMode::Blacklist => "blacklist",
        }
    }

    /// Parse a wire spelling; an unrecognized one is a schema error.
    pub fn from_wire(s: &str) -> (r: Result<Self, BpError>)
        ensures
            r matches Ok(w) ==> w.spec_wire() == s@,
            forall|v: Self| s@ == (#[trigger] v.spec_wire()) ==> r is Ok,
            r matches Err(e) ==> e is SchemaError,
    {
        if str_eq(s, "whitelist") {
            Ok(FilterMode::Whitelist)
        } else if str_eq(s, "blacklist") {
            Ok(FilterMode::Blacklist)
        } else {
            Err(BpError::SchemaError(String::from_str("unknown filter mode")))
        }
    }
}

/// The kind of a wait condition in a train schedule. Wire case: snake_case.
#[derive(Debug, Clone, Copy, PartialEq, Eq, Structural)]
pub enum ConditionType {
    /// Wait until an amount of time has passed.
    Time,
    /// Wait until the train has been inactive for a period of time.
    Inactivity,
    /// Wait until the train cargo is full.
    Full,
    /// Wait until the train cargo is empty.
    Empty,
    /// Wait until the train cargo reaches an item condition.
    ItemCount,
    /// Wait until the circuit network reaches a condition.
    Circuit,
    /// Wait until construction robots are inactive.
    RobotsInactive,
    /// Wait until the train cargo reaches a fluid condition.
    FluidCount,
    /// Wait until a passenger is present.
    PassengerPresent,
    /// Wait until a passenger is not present.
    PassengerNotPresent,
}

impl ConditionType {
    /// The wire spelling of this value.
    pub open spec fn spec_wire(self) -> Seq<char> {
        match self {
            ConditionType::Time => "time"@,
            ConditionType::Inactivity => "inactivity"@,
            ConditionType::Full => "full"@,
            ConditionType::Empty => "empty"@,
            ConditionType::ItemCount => "item_count"@,
            ConditionType::Circuit => "circuit"@,
            ConditionType::RobotsInactive => "robots_inactive"@,
            ConditionType::FluidCount => "fluid_count"@,
            ConditionType::PassengerPresent => "passenger_present"@,
            ConditionType::PassengerNotPresent => "passenger_not_present"@,
        }
    }

    /// The wire spelling of this value.
    pub fn wire_name(&self) -> (r: &'static str)
        ensures
            r@ == self.spec_wire(),
    {
        match self {
            ConditionType::Time => "time",
            ConditionType::Inactivity => "inactivity",
            ConditionType::Full => "full",
            ConditionType::Empty => "empty",
            ConditionType::ItemCount => "item_count",
            ConditionType::Circuit => "circuit",
            ConditionType::RobotsInactive => "robots_inactive",
            ConditionType::FluidCount => "fluid_count",
            ConditionType::PassengerPresent => "passenger_present",
            ConditionType::PassengerNotPresent => "passenger_not_present",
        }
    }

    /// Parse a wire spelling; an unrecognized one is a schema error.
    pub fn from_wire(s: &str) -> (r: Result<Self, BpError>)
        ensures
            r matches Ok(w) ==> w.spec_wire() == s@,
            forall|v: Self| s@ == (#[trigger] v.spec_wire()) ==> r is Ok,
            r matches Err(e) ==> e is SchemaError,
    {
        if str_eq(s, "time") {
            Ok(ConditionType::Time)
        } else if str_eq(s, "inactivity") {
            Ok(ConditionType::Inactivity)
        } else if str_eq(s, "full") {
            Ok(ConditionType::Full)
        } else if str_eq(s, "empty") {
            Ok(ConditionType::Empty)
        } else if str_eq(s, "item_count") {
            Ok(ConditionType::ItemCount)
        } else if str_eq(s, "circuit") {
            Ok(ConditionType::Circuit)
        } else if str_eq(s, "robots_inactive") {
            Ok(ConditionType::RobotsInactive)
        } else if str_eq(s, "fluid_count") {
            Ok(ConditionType::FluidCount)
        } else if str_eq(s, "passenger_present") {
            Ok(ConditionType::PassengerPresent)
        } else if str_eq(s, "passenger_not_present") {
            Ok(ConditionType::PassengerNotPresent)
        } else {
            Err(BpError::SchemaError(String::from_str("unknown wait condition type")))
        }
    }
}

/// How a wait condition combines with its predecessor. Wire case: lowercase.
#[derive(Debug, Clone, Copy, PartialEq, Eq, Structural)]
pub enum CompareType {
    /// Both sides must hold.
    And,
    /// One of the sides must hold.
    Or,
}

impl CompareType {
    /// The wire spelling of this value.
    pub open spec fn spec_wire(self) -> Seq<char> {
        match self {
            CompareType::And => "and"@,
            CompareType::Or => "or"@,
        }
    }

    /// The wire spelling of this value.
    pub fn wire_name(&self) -> (r: &'static str)
        ensures
            r@ == self.spec_wire(),
    {
        match self {
            CompareType::And => "and",
            CompareType::Or => "or",
        }
    }

    /// Parse a wire spelling; an unrecognized one is a schema error.
    pub fn from_wire(s: &str) -> (r: Result<Self, BpError>)
        ensures
            r matches Ok(w) ==> w.spec_wire() == s@,
            forall|v: Self| s@ == (#[trigger] v.spec_wire()) ==> r is Ok,
            r matches Err(e) ==> e is SchemaError,
    {
        if str_eq(s, "and") {
            Ok(CompareType::And)
        } else if str_eq(s, "or") {
            Ok(CompareType::Or)
        } else {
            Err(BpError::SchemaError(String::from_str("unknown compare type")))
        }
    }
}

/// The mode of an infinity-container filter. Wire case: kebab-case.
#[derive(Debug, Clone, Copy, PartialEq, Eq, Structural)]
pub enum InfinityFilterMode {
    /// Keep at least the count.
    AtLeast,
    /// Keep at most the count.
    AtMost,
    /// Keep exactly the count.
    Exactly,
}

impl InfinityFilterMode {
    /// The wire spelling of this value.
    pub open spec fn spec_wire(self) -> Seq<char> {
        match self {
            InfinityFilterMode::AtLeast => "at-least"@,
            InfinityFilterMode::AtMost => "at-most"@,
            InfinityFilterMode::Exactly => "exactly"@,
        }
    }

    /// The wire spelling of this value.
    pub fn wire_name(&self) -> (r: &'static str)
        ensures
            r@ == self.spec_wire(),
    {
        match self {
            InfinityFilterMode::AtLeast => "at-least",
            InfinityFilterMode::AtMost => "at-most",
            InfinityFilterMode::Exactly => "exactly",
        }
    }

    /// Parse a wire spelling; an unrecognized one is a schema error.
    pub fn from_wire(s: &str) -> (r: Result<Self, BpError>)
        ensures
            r matches Ok(w) ==> w.spec_wire() == s@,
            forall|v: Self| s@ == (#[trigger] v.spec_wire()) ==> r is Ok,
            r matches Err(e) ==> e is SchemaError,
    {
        if str_eq(s, "at-least") {
            Ok(InfinityFilterMode::AtLeast)
        } else if str_eq(s, "at-most") {
            Ok(InfinityFilterMode::AtMost)
        } else if str_eq(s, "exactly") {
            Ok(InfinityFilterMode::Exactly)
        } else {
            Err(BpError::SchemaError(String::from_str("unknown infinity filter mode")))
        }
    }
}

/// The kind of entity a circuit connector belongs to. Wire case: the bare
/// variant name.
#[derive(Debug, Clone, Copy, PartialEq, Eq, Structural)]
pub enum CircuitConnectorId {
    /// An accumulator.
    Accumulator,
    /// A constant combinator.
    ConstantCombinator,
    /// A container.
    Container,
    /// A container linked to a logistics network.
    LinkedContainer,
    /// A programmable speaker.
    ProgrammableSpeaker,
    /// A rail signal.
    RailSignal,
    /// A rail chain signal.
    RailChainSignal,
    /// A roboport.
    Roboport,
    /// A fluid storage tank.
    StorageTank,
    /// A wall or gate.
    Wall,
    /// An electric pole.
    ElectricPole,
    /// An inserter.
    Inserter,
    /// A lamp.
    Lamp,
    /// A combinator's input side.
    CombinatorInput,
    /// A combinator's output side.
    CombinatorOutput,
    /// An offshore pump.
    OffshorePump,
    /// A pump.
    Pump,
}

impl CircuitConnectorId {
    /// The wire spelling of this value.
    pub open spec fn spec_wire(self) -> Seq<char> {
        match self {
            CircuitConnectorId::Accumulator => "Accumulator"@,
            CircuitConnectorId::ConstantCombinator => "ConstantCombinator"@,
            CircuitConnectorId::Container => "Container"@,
            CircuitConnectorId::LinkedContainer => "LinkedContainer"@,
            CircuitConnectorId::ProgrammableSpeaker => "ProgrammableSpeaker"@,
            CircuitConnectorId::RailSignal => "RailSignal"@,
            CircuitConnectorId::RailChainSignal => "RailChainSignal"@,
            CircuitConnectorId::Roboport => "Roboport"@,
            CircuitConnectorId::StorageTank => "StorageTank"@,
            CircuitConnectorId::Wall => "Wall"@,
            CircuitConnectorId::ElectricPole => "ElectricPole"@,
            CircuitConnectorId::Inserter => "Inserter"@,
            CircuitConnectorId::Lamp => "Lamp"@,
            CircuitConnectorId::CombinatorInput => "CombinatorInput"@,
            CircuitConnectorId::CombinatorOutput => "CombinatorOutput"@,
            CircuitConnectorId::OffshorePump => "OffshorePump"@,
            CircuitConnectorId::Pump => "Pump"@,
        }
    }

    /// The wire spelling of this value.
    pub fn wire_name(&self) -> (r: &'static str)
        ensures
            r@ == self.spec_wire(),
    {
        match self {
            CircuitConnectorId::Accumulator => "Accumulator",
            CircuitConnectorId::ConstantCombinator => "ConstantCombinator",
            CircuitConnectorId::Container => "Container",
            CircuitConnectorId::LinkedContainer => "LinkedContainer",
            CircuitConnectorId::ProgrammableSpeaker => "ProgrammableSpeaker",
            CircuitConnectorId::RailSignal => "RailSignal",
            CircuitConnectorId::RailChainSignal => "RailChainSignal",
            CircuitConnectorId::Roboport => "Roboport",
            CircuitConnectorId::StorageTank => "StorageTank",
            CircuitConnectorId::Wall => "Wall",
            CircuitConnectorId::ElectricPole => "ElectricPole",
            CircuitConnectorId::Inserter => "Inserter",
            CircuitConnectorId::Lamp => "Lamp",
            CircuitConnectorId::CombinatorInput => "CombinatorInput",
            CircuitConnectorId::CombinatorOutput => "CombinatorOutput",
            CircuitConnectorId::OffshorePump => "OffshorePump",
            CircuitConnectorId::Pump => "Pump",
        }
    }

    /// Parse a wire spelling; an unrecognized one is a schema error.
    pub fn from_wire(s: &str) -> (r: Result<Self, BpError>)
        ensures
            r matches Ok(w) ==> w.spec_wire() == s@,
            forall|v: Self| s@ == (#[trigger] v.spec_wire()) ==> r is Ok,
            r matches Err(e) ==> e is SchemaError,
    {
        if str_eq(s, "Accumulator") {
            Ok(CircuitConnectorId::Accumulator)
        } else if str_eq(s, "ConstantCombinator") {
            Ok(CircuitConnectorId::ConstantCombinator)
        } else if str_eq(s, "Container") {
            Ok(CircuitConnectorId::Container)
        } else if str_eq(s, "LinkedContainer") {
            Ok(CircuitConnectorId::LinkedContainer)
        } else if str_eq(s, "ProgrammableSpeaker") {
            Ok(CircuitConnectorId::ProgrammableSpeaker)
        } else if str_eq(s, "RailSignal") {
            Ok(CircuitConnectorId::RailSignal)
        } else if str_eq(s, "RailChainSignal") {
            Ok(CircuitConnectorId::RailChainSignal)
        } else if str_eq(s, "Roboport") {
            Ok(CircuitConnectorId::Roboport)
        } else if str_eq(s, "StorageTank") {
            Ok(CircuitConnectorId::StorageTank)
        } else if str_eq(s, "Wall") {
            Ok(CircuitConnectorId::Wall)
        } else if str_eq(s, "ElectricPole") {
            Ok(CircuitConnectorId::ElectricPole)
        } else if str_eq(s, "Inserter") {
            Ok(CircuitConnectorId::Inserter)
        } else if str_eq(s, "Lamp") {
            Ok(CircuitConnectorId::Lamp)
        } else if str_eq(s, "CombinatorInput") {
            Ok(CircuitConnectorId::CombinatorInput)
        } else if str_eq(s, "CombinatorOutput") {
            Ok(CircuitConnectorId::CombinatorOutput)
        } else if str_eq(s, "OffshorePump") {
            Ok(CircuitConnectorId::OffshorePump)
        } else if str_eq(s, "Pump") {
            Ok(CircuitConnectorId::Pump)
        } else {
            Err(BpError::SchemaError(String::from_str("unknown circuit connector id")))
        }
    }
}

} // verus!
