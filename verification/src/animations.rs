use vstd::prelude::*;
use crate::builder::FSOBuilderListState;
use crate::error::FSOParsingError;
use crate::parser::FSOParser;
use crate::schema::{
    add_field, add_variant, no_fields, one_field, single_named_record, table_of, union_of,
    well_formed, FieldDescriptor, ScalarKind, ValueShape, VariantDescriptor,
};
use crate::tables::{
    one_optional_field, optional_from_value, optional_to_value, optional_val, plain, plain_all,
    record_value, FSOTable,
};
use crate::value::{values_view, FSOValue, Val};

verus! {

/// A record of one field as plain data.
pub open spec fn single_record_val(v: Val) -> Val {
    Val::Record(
        seq![v],
        Seq::<Option<Seq<char>>>::empty(),
        Seq::<Option<Seq<char>>>::empty(),
    )
}

/// A record value of one field.
pub fn single_record(v: FSOValue) -> (r: FSOValue)
    ensures
        r@ == single_record_val(v@),
{
    let mut fields: Vec<FSOValue> = Vec::new();
    fields.push(v);
    assert(values_view(fields) =~= seq![v@]);
    record_value(fields)
}

/// The field of a record value of one field.
pub fn single_field(v: &FSOValue) -> (r: Option<&FSOValue>)
    ensures
        match r {
            Some(f) => plain(v@) == single_record_val(plain(f@)),
            None => forall|x: Val| plain(v@) != #[trigger] single_record_val(x),
        },
{
    match v {
        FSOValue::Record(record) => {
            if record.fields.len() == 1 {
                assert(plain_all(values_view(record.fields)) =~= seq![plain(record.fields[0]@)]);
                Some(&record.fields[0])
            } else {
                assert forall|x: Val| plain(v@) != #[trigger] single_record_val(x) by {
                    assert(plain_all(values_view(record.fields)).len() != seq![x].len());
                }
                None
            }
        },
        _ => None,
    }
}

/// A variant value with no fields.
pub fn bare_variant(k: usize) -> (v: FSOValue)
    ensures
        v@ == Val::Variant(k as nat, Seq::<Val>::empty()),
{
    let fields: Vec<FSOValue> = Vec::new();
    assert(values_view(fields) =~= Seq::<Val>::empty());
    FSOValue::Variant(k, fields)
}

/// A variant value with one field.
pub fn unary_variant(k: usize, field: FSOValue) -> (v: FSOValue)
    ensures
        v@ == Val::Variant(k as nat, seq![field@]),
{
    let mut fields: Vec<FSOValue> = Vec::new();
    fields.push(field);
    assert(values_view(fields) =~= seq![field@]);
    FSOValue::Variant(k, fields)
}

/// The trigger of a docking animation: the name or number of a docking port.
#[derive(Debug)]
pub struct AnimationTriggerDocking {
    pub triggered_by: String,
}

/// The trigger of a weapon bank animation: the number of the bank.
#[derive(Debug)]
pub struct AnimationTriggerWeaponBank {
    pub triggered_by: u32,
}

/// The trigger of a fighter bay animation: the name or number of the bay.
#[derive(Debug)]
pub struct AnimationTriggerFighterbay {
    pub triggered_by: String,
}

/// The trigger of a turret animation: the name of the turret's subsystem.
#[derive(Debug)]
pub struct AnimationTriggerTurret {
    pub triggered_by: String,
}

/// The trigger of a scripted animation.
#[derive(Debug)]
pub struct AnimationTriggerScripted {
    pub triggered_by: String,
}

/// The text that a record value of one string field holds.
pub fn text_of_record(v: &FSOValue) -> (r: Option<String>)
    ensures
        match r {
            Some(t) => plain(v@) == single_record_val(Val::Text(t@)),
            None => forall|t: Seq<char>| plain(v@) != #[trigger] single_record_val(Val::Text(t)),
        },
{
    match single_field(v) {
        Some(FSOValue::Text(t)) => Some(t.clone()),
        Some(other) => {
            assert forall|t: Seq<char>| plain(v@) != #[trigger] single_record_val(
                Val::Text(t),
            ) by {
                assert(single_record_val(plain(other@))->Record_0[0] != Val::Text(t));
            }
            None
        },
        None => None,
    }
}

impl FSOTable for AnimationTriggerDocking {
    open spec fn as_val(&self) -> Val {
        single_record_val(Val::Text(self.triggered_by@))
    }

    fn shape() -> (s: ValueShape) {
        single_named_record("+Triggered By:", ValueShape::Scalar(ScalarKind::Text))
    }

    fn to_value(&self) -> (v: FSOValue) {
        single_record(FSOValue::Text(self.triggered_by.clone()))
    }

    fn from_value(v: &FSOValue) -> (r: Option<Self>) {
        match text_of_record(v) {
            Some(t) => Some(AnimationTriggerDocking { triggered_by: t }),
            None => None,
        }
    }
}

impl FSOTable for AnimationTriggerFighterbay {
    open spec fn as_val(&self) -> Val {
        single_record_val(Val::Text(self.triggered_by@))
    }

    fn shape() -> (s: ValueShape) {
        single_named_record("+Triggered By:", ValueShape::Scalar(ScalarKind::Text))
    }

    fn to_value(&self) -> (v: FSOValue) {
        single_record(FSOValue::Text(self.triggered_by.clone()))
    }

    fn from_value(v: &FSOValue) -> (r: Option<Self>) {
        match text_of_record(v) {
            Some(t) => Some(AnimationTriggerFighterbay { triggered_by: t }),
            None => None,
        }
    }
}

impl FSOTable for AnimationTriggerTurret {
    open spec fn as_val(&self) -> Val {
        single_record_val(Val::Text(self.triggered_by@))
    }

    fn shape() -> (s: ValueShape) {
        single_named_record("+Triggered By:", ValueShape::Scalar(ScalarKind::Text))
    }

    fn to_value(&self) -> (v: FSOValue) {
        single_record(FSOValue::Text(self.triggered_by.clone()))
    }

    fn from_value(v: &FSOValue) -> (r: Option<Self>) {
        match text_of_record(v) {
            Some(t) => Some(AnimationTriggerTurret { triggered_by: t }),
            None => None,
        }
    }
}

impl FSOTable for AnimationTriggerScripted {
    open spec fn as_val(&self) -> Val {
        single_record_val(Val::Text(self.triggered_by@))
    }

    fn shape() -> (s: ValueShape) {
        single_named_record("+Triggered By:", ValueShape::Scalar(ScalarKind::Text))
    }

    fn to_value(&self) -> (v: FSOValue) {
        single_record(FSOValue::Text(self.triggered_by.clone()))
    }

    fn from_value(v: &FSOValue) -> (r: Option<Self>) {
        match text_of_record(v) {
            Some(t) => Some(AnimationTriggerScripted { triggered_by: t }),
            None => None,
        }
    }
}

impl FSOTable for AnimationTriggerWeaponBank {
    open spec fn as_val(&self) -> Val {
        single_record_val(Val::UInt(self.triggered_by as nat))
    }

    fn shape() -> (s: ValueShape) {
        single_named_record("+Triggered By:", ValueShape::Scalar(ScalarKind::U32))
    }

    fn to_value(&self) -> (v: FSOValue) {
        single_record(FSOValue::UInt(self.triggered_by as u64))
    }

    fn from_value(v: &FSOValue) -> (r: Option<Self>) {
        match single_field(v) {
            Some(FSOValue::UInt(n)) => {
                if *n <= u32::MAX as u64 {
                    Some(AnimationTriggerWeaponBank { triggered_by: *n as u32 })
                } else {
                    assert forall|x: Self| plain(v@) != #[trigger] x.as_val() by {
                        assert(x.as_val()->Record_0[0] != Val::UInt(*n as nat));
                    }
                    None
                }
            },
            Some(other) => {
                assert forall|x: Self| plain(v@) != #[trigger] x.as_val() by {
                    assert(x.as_val()->Record_0[0] != plain(other@));
                }
                None
            },
            None => None,
        }
    }
}

/// The frame in which a translation is given.
#[derive(PartialEq, Eq, Structural, Clone, Copy, Debug)]
pub enum AnimationTranslationCoordinateSystem {
    Parent,
    LocalAtStart,
    LocalCurrent,
}

impl FSOTable for AnimationTranslationCoordinateSystem {
    open spec fn as_val(&self) -> Val {
        match self {
            AnimationTranslationCoordinateSystem::Parent => Val::Variant(0, Seq::<Val>::empty()),
            AnimationTranslationCoordinateSystem::LocalAtStart => Val::Variant(
                1,
                Seq::<Val>::empty(),
            ),
            AnimationTranslationCoordinateSystem::LocalCurrent => Val::Variant(
                2,
                Seq::<Val>::empty(),
            ),
        }
    }

    fn shape() -> (s: ValueShape) {
        let mut variants: Vec<VariantDescriptor> = Vec::new();
        add_variant(&mut variants, "Parent", no_fields());
        add_variant(&mut variants, "Local at start", no_fields());
        add_variant(&mut variants, "Local current", no_fields());
        union_of(variants)
    }

    fn to_value(&self) -> (v: FSOValue) {
        match self {
            AnimationTranslationCoordinateSystem::Parent => bare_variant(0),
            AnimationTranslationCoordinateSystem::LocalAtStart => bare_variant(1),
            AnimationTranslationCoordinateSystem::LocalCurrent => bare_variant(2),
        }
    }

    fn from_value(v: &FSOValue) -> (r: Option<Self>) {
        match v {
            FSOValue::Variant(k, items) => {
                proof {
                    assert(plain_all(values_view(*items)).len() == items@.len());
                    if items@.len() == 0 {
                        assert(plain_all(values_view(*items)) =~= Seq::<Val>::empty());
                    }
                }
                if items.len() != 0 {
                    None
                } else if *k == 0 {
                    Some(AnimationTranslationCoordinateSystem::Parent)
                } else if *k == 1 {
                    Some(AnimationTranslationCoordinateSystem::LocalAtStart)
                } else if *k == 2 {
                    Some(AnimationTranslationCoordinateSystem::LocalCurrent)
                } else {
                    None
                }
            },
            _ => None,
        }
    }
}

/// What an animation acts on.
#[derive(Debug)]
pub enum AnimationTarget {
    Submodel { submodel_name: String },
    TurretBase { subsystem_name: String },
    TurretArm { subsystem_name: String },
}

/// The one field of a variant, if it has one field and that is a string.
pub fn text_of_fields(items: &Vec<FSOValue>) -> (r: Option<String>)
    ensures
        match r {
            Some(t) => plain_all(values_view(*items)) == seq![Val::Text(t@)],
            None => forall|t: Seq<char>|
                plain_all(values_view(*items)) != #[trigger] seq![Val::Text(t)],
        },
{
    if items.len() == 1 {
        match &items[0] {
            FSOValue::Text(t) => {
                assert(plain_all(values_view(*items)) =~= seq![Val::Text(t@)]);
                Some(t.clone())
            },
            other => {
                assert forall|t: Seq<char>|
                    plain_all(values_view(*items)) != #[trigger] seq![Val::Text(t)] by {
                    assert(plain_all(values_view(*items))[0] == plain(other@));
                    assert(seq![Val::Text(t)][0] == Val::Text(t));
                }
                None
            },
        }
    } else {
        assert forall|t: Seq<char>|
            plain_all(values_view(*items)) != #[trigger] seq![Val::Text(t)] by {
            assert(plain_all(values_view(*items)).len() != seq![Val::Text(t)].len());
        }
        None
    }
}

impl FSOTable for AnimationTarget {
    open spec fn as_val(&self) -> Val {
        match self {
            AnimationTarget::Submodel { submodel_name } => Val::Variant(
                0,
                seq![Val::Text(submodel_name@)],
            ),
            AnimationTarget::TurretBase { subsystem_name } => Val::Variant(
                1,
                seq![Val::Text(subsystem_name@)],
            ),
            AnimationTarget::TurretArm { subsystem_name } => Val::Variant(
                2,
                seq![Val::Text(subsystem_name@)],
            ),
        }
    }

    fn shape() -> (s: ValueShape) {
        let mut variants: Vec<VariantDescriptor> = Vec::new();
        add_variant(&mut variants, "+Submodel:", one_field(ValueShape::Scalar(ScalarKind::Text)));
        add_variant(&mut variants, "+Turret Base:", one_field(ValueShape::Scalar(ScalarKind::Text)));
        add_variant(&mut variants, "+Turret Arm:", one_field(ValueShape::Scalar(ScalarKind::Text)));
        union_of(variants)
    }

    fn to_value(&self) -> (v: FSOValue) {
        match self {
            AnimationTarget::Submodel { submodel_name } => unary_variant(
                0,
                FSOValue::Text(submodel_name.clone()),
            ),
            AnimationTarget::TurretBase { subsystem_name } => unary_variant(
                1,
                FSOValue::Text(subsystem_name.clone()),
            ),
            AnimationTarget::TurretArm { subsystem_name } => unary_variant(
                2,
                FSOValue::Text(subsystem_name.clone()),
            ),
        }
    }

    fn from_value(v: &FSOValue) -> (r: Option<Self>) {
        match v {
            FSOValue::Variant(k, items) => {
                match text_of_fields(items) {
                    Some(t) => {
                        if *k == 0 {
                            Some(AnimationTarget::Submodel { submodel_name: t })
                        } else if *k == 1 {
                            Some(AnimationTarget::TurretBase { subsystem_name: t })
                        } else if *k == 2 {
                            Some(AnimationTarget::TurretArm { subsystem_name: t })
                        } else {
                            None
                        }
                    },
                    None => {
                        assert forall|x: Self| plain(v@) != #[trigger] x.as_val() by {
                            match x {
                                AnimationTarget::Submodel { submodel_name } => {
                                    assert(plain_all(values_view(*items)) != seq![
                                        Val::Text(submodel_name@),
                                    ]);
                                },
                                AnimationTarget::TurretBase { subsystem_name } => {
                                    assert(plain_all(values_view(*items)) != seq![
                                        Val::Text(subsystem_name@),
                                    ]);
                                },
                                AnimationTarget::TurretArm { subsystem_name } => {
                                    assert(plain_all(values_view(*items)) != seq![
                                        Val::Text(subsystem_name@),
                                    ]);
                                },
                            }
                        }
                        None
                    },
                }
            },
            _ => None,
        }
    }
}

/// A part that can be moved by script. Its table entries are not read yet:
/// reading one fails.
#[derive(PartialEq, Eq, Structural, Clone, Copy, Debug)]
pub struct Moveable;

/// The report of an attempt to read a moveable.
pub open spec fn unimplemented_reason() -> Seq<char> {
    "Unimplemented!"@
}

impl Moveable {
    /// Fails: moveables are not read yet. Nothing is read from `state`.
    pub fn parse<P: FSOParser>(state: &P) -> (r: Result<Self, FSOParsingError>)
        ensures
            r matches Err(e) && e@ == crate::grammar::plain_error(
                state.position().line,
                unimplemented_reason(),
            ),
    {
        Err(FSOParsingError::new(state.line(), "Unimplemented!".to_owned()))
    }
}

/// The shape of a moveable: a tagged union without variants, which nothing
/// matches.
pub fn moveable_shape() -> (s: ValueShape)
    ensures
        s is TaggedUnion,
        well_formed(s),
{
    union_of(Vec::new())
}

impl FSOTable for Moveable {
    open spec fn as_val(&self) -> Val {
        Val::Variant(0, Seq::<Val>::empty())
    }

    fn shape() -> (s: ValueShape) {
        moveable_shape()
    }

    fn to_value(&self) -> (v: FSOValue) {
        bare_variant(0)
    }

    fn from_value(v: &FSOValue) -> (r: Option<Self>) {
        match v {
            FSOValue::Variant(k, items) => {
                proof {
                    assert(plain_all(values_view(*items)).len() == items@.len());
                    if items@.len() == 0 {
                        assert(plain_all(values_view(*items)) =~= Seq::<Val>::empty());
                    }
                }
                if *k == 0 && items.len() == 0 {
                    Some(Moveable)
                } else {
                    None
                }
            },
            _ => None,
        }
    }
}

/// The table of moveables: `#Moveables`, the moveables, `#End`.
#[derive(Debug)]
pub struct MoveablesSubtable {
    pub moveables: Vec<Moveable>,
}

/// As many moveables as plain data.
pub open spec fn moveables_val(n: nat) -> Seq<Val> {
    Seq::new(n, |i: int| Val::Variant(0, Seq::<Val>::empty()))
}

impl FSOTable for MoveablesSubtable {
    open spec fn as_val(&self) -> Val {
        single_record_val(Val::List(moveables_val(self.moveables@.len())))
    }

    fn shape() -> (s: ValueShape) {
        let inner = moveable_shape();
        let list = ValueShape::List(Box::new(inner), FSOBuilderListState::MutlilineList);
        assert(well_formed(list));
        let mut fields: Vec<FieldDescriptor> = Vec::new();
        add_field(&mut fields, FieldDescriptor::Positional { shape: list, gobble: None });
        table_of("#Moveables", fields, "#End")
    }

    fn to_value(&self) -> (v: FSOValue) {
        let mut items: Vec<FSOValue> = Vec::new();
        let mut i: usize = 0;
        while i < self.moveables.len()
            invariant
                i <= self.moveables.len(),
                items@.len() == i,
                forall|j: int| 0 <= j < i ==> items@[j]@ == Val::Variant(0, Seq::<Val>::empty()),
            decreases self.moveables.len() - i,
        {
            items.push(bare_variant(0));
            i += 1;
        }
        assert(values_view(items) =~= moveables_val(self.moveables@.len()));
        single_record(FSOValue::List(items))
    }

    fn from_value(v: &FSOValue) -> (r: Option<Self>) {
        match single_field(v) {
            Some(FSOValue::List(items)) => {
                let mut moveables: Vec<Moveable> = Vec::new();
                let mut i: usize = 0;
                while i < items.len()
                    invariant
                        i <= items.len(),
                        moveables@.len() == i,
                        forall|j: int|
                            0 <= j < i ==> plain(items@[j]@) == Val::Variant(
                                0,
                                Seq::<Val>::empty(),
                            ),
                    ensures
                        i == items.len() || (i < items.len() && plain(items@[i as int]@)
                            != Val::Variant(0, Seq::<Val>::empty())),
                    decreases items.len() - i,
                {
                    match Moveable::from_value(&items[i]) {
                        Some(m) => moveables.push(m),
                        None => {
                            assert(plain(items@[i as int]@) != Moveable.as_val());
                            break ;
                        },
                    }
                    i += 1;
                }
                if i == items.len() {
                    assert(plain_all(values_view(*items)) =~= moveables_val(moveables@.len()));
                    Some(MoveablesSubtable { moveables })
                } else {
                    assert forall|x: Self| plain(v@) != #[trigger] x.as_val() by {
                        let mine = plain_all(values_view(*items));
                        let theirs = moveables_val(x.moveables@.len());
                        if mine.len() == theirs.len() {
                            assert(mine[i as int] != theirs[i as int]);
                        }
                        assert(single_record_val(Val::List(mine))->Record_0[0]
                            != Val::List(theirs));
                    }
                    None
                }
            },
            Some(other) => {
                assert forall|x: Self| plain(v@) != #[trigger] x.as_val() by {
                    assert(x.as_val()->Record_0[0] != plain(other@));
                }
                None
            },
            None => None,
        }
    }
}

/// What sets an animation off.
#[allow(inconsistent_fields)]
#[derive(Debug)]
pub enum AnimationTrigger {
    Initial,
    OnSpawn,
    DockingStage1 { trigger: Option<AnimationTriggerDocking> },
    DockingStage2 { trigger: Option<AnimationTriggerDocking> },
    DockingStage3 { trigger: Option<AnimationTriggerDocking> },
    Docked { trigger: Option<AnimationTriggerDocking> },
    PrimaryBank { trigger: Option<AnimationTriggerWeaponBank> },
    PrimaryFired { trigger: Option<AnimationTriggerWeaponBank> },
    SecondaryBank { trigger: Option<AnimationTriggerWeaponBank> },
    SecondaryFired { trigger: Option<AnimationTriggerWeaponBank> },
    Fighterbay { trigger: Option<AnimationTriggerFighterbay> },
    Afterburner,
    TurretFiring { trigger: Option<AnimationTriggerTurret> },
    TurretFired { trigger: Option<AnimationTriggerTurret> },
    Scripted { trigger: Option<AnimationTriggerScripted> },
}

/// The one field of a variant, if it has one field and that is an optional
/// value of type `T`.
pub fn optional_of_fields<T: FSOTable>(items: &Vec<FSOValue>) -> (r: Option<Option<T>>)
    ensures
        match r {
            Some(o) => plain_all(values_view(*items)) == seq![optional_val(o)],
            None => forall|o: Option<T>|
                plain_all(values_view(*items)) != #[trigger] seq![optional_val(o)],
        },
{
    if items.len() == 1 {
        match optional_from_value::<T>(&items[0]) {
            Some(o) => {
                assert(plain_all(values_view(*items)) =~= seq![optional_val(o)]);
                Some(o)
            },
            None => {
                assert forall|o: Option<T>|
                    plain_all(values_view(*items)) != #[trigger] seq![optional_val(o)] by {
                    assert(plain_all(values_view(*items))[0] == plain(items@[0]@));
                    assert(seq![optional_val(o)][0] == optional_val(o));
                }
                None
            },
        }
    } else {
        assert forall|o: Option<T>|
            plain_all(values_view(*items)) != #[trigger] seq![optional_val(o)] by {
            assert(plain_all(values_view(*items)).len() != seq![optional_val(o)].len());
        }
        None
    }
}

/// Whether a variant has no fields.
pub fn fields_empty(items: &Vec<FSOValue>) -> (r: bool)
    ensures
        r == (plain_all(values_view(*items)) == Seq::<Val>::empty()),
{
    if items.len() == 0 {
        assert(plain_all(values_view(*items)) =~= Seq::<Val>::empty());
        true
    } else {
        assert(plain_all(values_view(*items)).len() != Seq::<Val>::empty().len());
        false
    }
}

impl FSOTable for AnimationTrigger {
    open spec fn as_val(&self) -> Val {
        match self {
            AnimationTrigger::Initial => Val::Variant(0, Seq::<Val>::empty()),
            AnimationTrigger::OnSpawn => Val::Variant(1, Seq::<Val>::empty()),
            AnimationTrigger::DockingStage1 { trigger } => Val::Variant(
                2,
                seq![optional_val(*trigger)],
            ),
            AnimationTrigger::DockingStage2 { trigger } => Val::Variant(
                3,
                seq![optional_val(*trigger)],
            ),
            AnimationTrigger::DockingStage3 { trigger } => Val::Variant(
                4,
                seq![optional_val(*trigger)],
            ),
            AnimationTrigger::Docked { trigger } => Val::Variant(
                5,
                seq![optional_val(*trigger)],
            ),
            AnimationTrigger::PrimaryBank { trigger } => Val::Variant(
                6,
                seq![optional_val(*trigger)],
            ),
            AnimationTrigger::PrimaryFired { trigger } => Val::Variant(
                7,
                seq![optional_val(*trigger)],
            ),
            AnimationTrigger::SecondaryBank { trigger } => Val::Variant(
                8,
                seq![optional_val(*trigger)],
            ),
            AnimationTrigger::SecondaryFired { trigger } => Val::Variant(
                9,
                seq![optional_val(*trigger)],
            ),
            AnimationTrigger::Fighterbay { trigger } => Val::Variant(
                10,
                seq![optional_val(*trigger)],
            ),
            AnimationTrigger::Afterburner => Val::Variant(11, Seq::<Val>::empty()),
            AnimationTrigger::TurretFiring { trigger } => Val::Variant(
                12,
                seq![optional_val(*trigger)],
            ),
            AnimationTrigger::TurretFired { trigger } => Val::Variant(
                13,
                seq![optional_val(*trigger)],
            ),
            AnimationTrigger::Scripted { trigger } => Val::Variant(
                14,
                seq![optional_val(*trigger)],
            ),
        }
    }

    fn shape() -> (s: ValueShape) {
        let mut variants: Vec<VariantDescriptor> = Vec::new();
        add_variant(&mut variants, "initial", no_fields());
        add_variant(&mut variants, "on-spawn", no_fields());
        add_variant(&mut variants, "docking-stage-1", one_optional_field::<AnimationTriggerDocking>());
        add_variant(&mut variants, "docking-stage-2", one_optional_field::<AnimationTriggerDocking>());
        add_variant(&mut variants, "docking-stage-3", one_optional_field::<AnimationTriggerDocking>());
        add_variant(&mut variants, "docked", one_optional_field::<AnimationTriggerDocking>());
        add_variant(&mut variants, "primary-bank", one_optional_field::<AnimationTriggerWeaponBank>());
        add_variant(&mut variants, "primary-fired", one_optional_field::<AnimationTriggerWeaponBank>());
        add_variant(&mut variants, "secondary-bank", one_optional_field::<AnimationTriggerWeaponBank>());
        add_variant(&mut variants, "secondary-fired", one_optional_field::<AnimationTriggerWeaponBank>());
        add_variant(&mut variants, "fighterbay", one_optional_field::<AnimationTriggerFighterbay>());
        add_variant(&mut variants, "afterburner", no_fields());
        add_variant(&mut variants, "turret-firing", one_optional_field::<AnimationTriggerTurret>());
        add_variant(&mut variants, "turret-fired", one_optional_field::<AnimationTriggerTurret>());
        add_variant(&mut variants, "scripted", one_optional_field::<AnimationTriggerScripted>());
        union_of(variants)
    }

    fn to_value(&self) -> (v: FSOValue) {
        match self {
            AnimationTrigger::Initial => bare_variant(0),
            AnimationTrigger::OnSpawn => bare_variant(1),
            AnimationTrigger::DockingStage1 { trigger } => unary_variant(
                2,
                optional_to_value(trigger),
            ),
            AnimationTrigger::DockingStage2 { trigger } => unary_variant(
                3,
                optional_to_value(trigger),
            ),
            AnimationTrigger::DockingStage3 { trigger } => unary_variant(
                4,
                optional_to_value(trigger),
            ),
            AnimationTrigger::Docked { trigger } => unary_variant(
                5,
                optional_to_value(trigger),
            ),
            AnimationTrigger::PrimaryBank { trigger } => unary_variant(
                6,
                optional_to_value(trigger),
            ),
            AnimationTrigger::PrimaryFired { trigger } => unary_variant(
                7,
                optional_to_value(trigger),
            ),
            AnimationTrigger::SecondaryBank { trigger } => unary_variant(
                8,
                optional_to_value(trigger),
            ),
            AnimationTrigger::SecondaryFired { trigger } => unary_variant(
                9,
                optional_to_value(trigger),
            ),
            AnimationTrigger::Fighterbay { trigger } => unary_variant(
                10,
                optional_to_value(trigger),
            ),
            AnimationTrigger::Afterburner => bare_variant(11),
            AnimationTrigger::TurretFiring { trigger } => unary_variant(
                12,
                optional_to_value(trigger),
            ),
            AnimationTrigger::TurretFired { trigger } => unary_variant(
                13,
                optional_to_value(trigger),
            ),
            AnimationTrigger::Scripted { trigger } => unary_variant(
                14,
                optional_to_value(trigger),
            ),
        }
    }

    fn from_value(v: &FSOValue) -> (r: Option<Self>) {
        match v {
            FSOValue::Variant(k, items) => {
                if *k == 0 {
                    if fields_empty(items) {
                        Some(AnimationTrigger::Initial)
                    } else {
                        None
                    }
                } else if *k == 1 {
                    if fields_empty(items) {
                        Some(AnimationTrigger::OnSpawn)
                    } else {
                        None
                    }
                } else if *k == 2 {
                    match optional_of_fields::<AnimationTriggerDocking>(items) {
                        Some(trigger) => Some(AnimationTrigger::DockingStage1 { trigger }),
                        None => None,
                    }
                } else if *k == 3 {
                    match optional_of_fields::<AnimationTriggerDocking>(items) {
                        Some(trigger) => Some(AnimationTrigger::DockingStage2 { trigger }),
                        None => None,
                    }
                } else if *k == 4 {
                    match optional_of_fields::<AnimationTriggerDocking>(items) {
                        Some(trigger) => Some(AnimationTrigger::DockingStage3 { trigger }),
                        None => None,
                    }
                } else if *k == 5 {
                    match optional_of_fields::<AnimationTriggerDocking>(items) {
                        Some(trigger) => Some(AnimationTrigger::Docked { trigger }),
                        None => None,
                    }
                } else if *k == 6 {
                    match optional_of_fields::<AnimationTriggerWeaponBank>(items) {
                        Some(trigger) => Some(AnimationTrigger::PrimaryBank { trigger }),
                        None => None,
                    }
                } else if *k == 7 {
                    match optional_of_fields::<AnimationTriggerWeaponBank>(items) {
                        Some(trigger) => Some(AnimationTrigger::PrimaryFired { trigger }),
                        None => None,
                    }
                } else if *k == 8 {
                    match optional_of_fields::<AnimationTriggerWeaponBank>(items) {
                        Some(trigger) => Some(AnimationTrigger::SecondaryBank { trigger }),
                        None => None,
                    }
                } else if *k == 9 {
                    match optional_of_fields::<AnimationTriggerWeaponBank>(items) {
                        Some(trigger) => Some(AnimationTrigger::SecondaryFired { trigger }),
                        None => None,
                    }
                } else if *k == 10 {
                    match optional_of_fields::<AnimationTriggerFighterbay>(items) {
                        Some(trigger) => Some(AnimationTrigger::Fighterbay { trigger }),
                        None => None,
                    }
                } else if *k == 11 {
                    if fields_empty(items) {
                        Some(AnimationTrigger::Afterburner)
                    } else {
                        None
                    }
                } else if *k == 12 {
                    match optional_of_fields::<AnimationTriggerTurret>(items) {
                        Some(trigger) => Some(AnimationTrigger::TurretFiring { trigger }),
                        None => None,
                    }
                } else if *k == 13 {
                    match optional_of_fields::<AnimationTriggerTurret>(items) {
                        Some(trigger) => Some(AnimationTrigger::TurretFired { trigger }),
                        None => None,
                    }
                } else if *k == 14 {
                    match optional_of_fields::<AnimationTriggerScripted>(items) {
                        Some(trigger) => Some(AnimationTrigger::Scripted { trigger }),
                        None => None,
                    }
                } else {
                    None
                }
            },
            _ => None,
        }
    }
}

} // verus!
