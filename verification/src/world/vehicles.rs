use vstd::prelude::*;

use crate::chunk::chunk_tile_position::TilePosition;
use crate::world::buildings::NeedsPathFinding;
use crate::world::resources::{Inventory, InventoryStorage, InventoryType};
use crate::world::road::pathfinding::Pathfind;

verus! {

/// A goal a vehicle has just reached.
#[derive(Clone, Copy, Eq, PartialEq, Debug, Hash)]
pub struct VehicleCompletedGoal<E> {
    pub goal: VehicleGoal<E>,
}

/// The tile a vehicle was last on.
#[derive(Clone, Copy, Eq, PartialEq, Debug)]
pub struct VehiclePosition {
    pub position: TilePosition,
}

/// Where a vehicle is heading, naming the building (`E` identifies it).
#[derive(Clone, Copy, Eq, PartialEq, Debug, Hash)]
pub enum VehicleGoal<E> {
    Shopping { entity: E },
    ReturnHome { entity: E },
}

/// The goals a vehicle still has; the last one is pursued first.
#[derive(Clone, Eq, PartialEq, Debug, Hash)]
pub struct VehicleGoals<E> {
    pub goals: Vec<VehicleGoal<E>>,
}

/// A vehicle leaving a home for a shop: what it carries, its goals, and the route it needs.
#[derive(Clone, Debug)]
pub struct ShoppingTrip<E> {
    pub inventory: Inventory,
    pub goals: VehicleGoals<E>,
    pub shop: E,
    pub route: NeedsPathFinding,
}

/// What to do with a vehicle once it has reached a goal.
#[derive(Clone, Copy, Eq, PartialEq, Debug)]
pub enum GoalOutcome<E> {
    /// The vehicle drives its route back.
    KeepDriving,
    /// The vehicle is home: it unloads into that home and disappears.
    ArrivedHome { home: E },
}

/// A home's people after one of them leaves on a trip.
pub open spec fn departed(people: InventoryStorage) -> InventoryStorage {
    InventoryStorage { current: (people.current - 1) as usize, max: people.max }
}

/// What a vehicle leaving a home carries: one person, with room for five.
pub open spec fn vehicle_load() -> InventoryStorage {
    InventoryStorage { current: 1, max: 5 }
}

/// A building's and a vehicle's people after the vehicle unloads into the building.
pub open spec fn unloaded(building: InventoryStorage, vehicle: InventoryStorage) -> (InventoryStorage, InventoryStorage) {
    (
        InventoryStorage { current: (building.current + vehicle.current) as usize, max: building.max },
        InventoryStorage { current: 0, max: vehicle.max },
    )
}

/// `rand::random::<usize>()`: a number drawn from the thread's random generator. Any value can
/// come back; nothing is stated about which.
#[verifier::external_body]
fn random_usize() -> usize {
    rand::random::<usize>()
}

/// The trip a home sends out when it has people, given the drawn number: one person leaves the
/// home, riding in a vehicle that carries one of five, towards the shop at position
/// `random % shops.len()`; the vehicle first goes shopping, then returns home.
pub fn shopping_trip_with<E: Copy>(
    home: E,
    home_entrance: TilePosition,
    home_inventory: &mut Inventory,
    shops: &Vec<(E, TilePosition)>,
    random: usize,
) -> (r: Option<ShoppingTrip<E>>)
    ensures
        ({
            let people = old(home_inventory).storage(InventoryType::People);
            if shops@.len() == 0 || people.current == 0 {
                r is None && *final(home_inventory) == *old(home_inventory)
            } else {
                let shop = shops@[(random as int) % (shops@.len() as int)];
                &&& r is Some
                &&& final(home_inventory).storage(InventoryType::People) == departed(people)
                &&& r->0.inventory.storage(InventoryType::People) == vehicle_load()
                &&& r->0.goals.goals@ == seq![
                    VehicleGoal::ReturnHome { entity: home },
                    VehicleGoal::Shopping { entity: shop.0 },
                ]
                &&& r->0.shop == shop.0
                &&& r->0.route == (NeedsPathFinding { start: home_entrance, end: shop.1 })
            }
        }),
{
    if shops.len() == 0 {
        return None;
    }
    let mut population = home_inventory.get(InventoryType::People);
    if population.current == 0 {
        return None;
    }
    population.current = population.current - 1;
    home_inventory.set(InventoryType::People, population);
    let mut inventory = Inventory::new();
    inventory.set(InventoryType::People, InventoryStorage { current: 1, max: 5 });
    let (shop, shop_entrance) = shops[random % shops.len()];
    let mut goals: Vec<VehicleGoal<E>> = Vec::new();
    goals.push(VehicleGoal::ReturnHome { entity: home });
    goals.push(VehicleGoal::Shopping { entity: shop });
    Some(
        ShoppingTrip {
            inventory,
            goals: VehicleGoals { goals },
            shop,
            route: NeedsPathFinding { start: home_entrance, end: shop_entrance },
        },
    )
}

/// The trip a home sends out when it has people, to a shop drawn at random.
pub fn plan_shopping_trip<E: Copy>(
    home: E,
    home_entrance: TilePosition,
    home_inventory: &mut Inventory,
    shops: &Vec<(E, TilePosition)>,
) -> (r: Option<ShoppingTrip<E>>)
    ensures
        ({
            let people = old(home_inventory).storage(InventoryType::People);
            if shops@.len() == 0 || people.current == 0 {
                r is None && *final(home_inventory) == *old(home_inventory)
            } else {
                &&& r is Some
                &&& final(home_inventory).storage(InventoryType::People) == departed(people)
                &&& exists|i: int|
                    0 <= i < shops@.len() && #[trigger] shops@[i] == (r->0.shop, r->0.route.end)
                        && r->0.goals.goals@ == seq![
                        VehicleGoal::ReturnHome { entity: home },
                        VehicleGoal::Shopping { entity: shops@[i].0 },
                    ]
                &&& r->0.route.start == home_entrance
                &&& r->0.inventory.storage(InventoryType::People) == vehicle_load()
            }
        }),
{
    if shops.len() == 0 || home_inventory.get(InventoryType::People).current == 0 {
        return shopping_trip_with(home, home_entrance, home_inventory, shops, 0);
    }
    let random = random_usize();
    let r = shopping_trip_with(home, home_entrance, home_inventory, shops, random);
    proof {
        let i = (random as int) % (shops@.len() as int);
        assert(shops@[i] == (r->0.shop, r->0.route.end));
    }
    r
}

/// What happens when a vehicle reaches a goal: after shopping it drives its route back from the
/// start; at home it is done.
pub fn complete_goal<E: Copy>(goal: VehicleGoal<E>, pathfind: &mut Pathfind) -> (r: GoalOutcome<E>)
    ensures
        match goal {
            VehicleGoal::Shopping { .. } => r == GoalOutcome::<E>::KeepDriving
                && final(pathfind).path@ == old(pathfind).path@.reverse()
                && final(pathfind).current_index == 0,
            VehicleGoal::ReturnHome { entity } => r == (GoalOutcome::ArrivedHome { home: entity })
                && *final(pathfind) == *old(pathfind),
        },
{
    match goal {
        VehicleGoal::Shopping { .. } => {
            pathfind.turn_around();
            GoalOutcome::KeepDriving
        },
        VehicleGoal::ReturnHome { entity } => GoalOutcome::ArrivedHome { home: entity },
    }
}

/// Moves the people a vehicle carries into a building.
pub fn unload_people(vehicle: &mut Inventory, building: &mut Inventory)
    requires
        old(building).storage(InventoryType::People).current + old(vehicle).storage(
            InventoryType::People,
        ).current <= usize::MAX,
    ensures
        (final(building).storage(InventoryType::People), final(vehicle).storage(InventoryType::People))
            == unloaded(old(building).storage(InventoryType::People), old(vehicle).storage(InventoryType::People)),
{
    let mut home_people = building.get(InventoryType::People);
    let mut carried = vehicle.get(InventoryType::People);
    home_people.current = home_people.current + carried.current;
    building.set(InventoryType::People, home_people);
    carried.current = 0;
    vehicle.set(InventoryType::People, carried);
}


/// A shopping trip loses no one: the person who leaves a home is back in it, and the vehicle is
/// empty, once the vehicle unloads there.
pub proof fn law_round_trip_keeps_people(home: InventoryStorage)
    requires
        home.current > 0,
    ensures
        unloaded(departed(home), vehicle_load()).0 == home,
        unloaded(departed(home), vehicle_load()).1.current == 0,
{
}

} // verus!
