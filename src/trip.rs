use vstd::prelude::*;

verus! {

/// What a trip is, as contracts speak of it.
pub struct TripView {
    pub from: Seq<char>,
    pub to: Seq<char>,
    pub price: nat,
}

/// A trip offered by the agency: where it leaves from, where it goes, and its price.
#[derive(Debug, PartialEq, Eq)]
pub struct Trip {
    pub from: String,
    pub to: String,
    pub price: u32,
}

impl View for Trip {
    type V = TripView;

    open spec fn view(&self) -> TripView {
        TripView { from: self.from@, to: self.to@, price: self.price as nat }
    }
}

impl Clone for Trip {
    fn clone(&self) -> (r: Self)
        ensures
            r@ == self@,
    {
        Trip { from: self.from.clone(), to: self.to.clone(), price: self.price }
    }
}

/// The model of a list of trips.
pub open spec fn trips_view(trips: Seq<Trip>) -> Seq<TripView> {
    trips.map_values(|t: Trip| t@)
}

pub open spec fn spec_trip(from: Seq<char>, to: Seq<char>, price: nat) -> TripView {
    TripView { from, to, price }
}

/// The fixed catalogue, in its order.
pub open spec fn catalogue() -> Seq<TripView> {
    seq![
        spec_trip("Lisbon"@, "London"@, 200),
        spec_trip("London"@, "Berlin"@, 400),
        spec_trip("Berlin"@, "Paris"@, 600),
        spec_trip("Paris"@, "Amesterdam"@, 800),
    ]
}

/// A trip touches a city when it leaves from it or goes to it (exact, case-sensitive).
pub open spec fn touches(t: TripView, city: Seq<char>) -> bool {
    t.from == city || t.to == city
}

/// The trips of `trips` that touch `city`, in their order.
pub open spec fn matching(trips: Seq<TripView>, city: Seq<char>) -> Seq<TripView> {
    trips.filter(|t: TripView| touches(t, city))
}

/// What a search for `city` returns: the catalogue's trips that touch it.
pub open spec fn search_results(city: Seq<char>) -> Seq<TripView> {
    matching(catalogue(), city)
}

impl Trip {
    pub fn new(from: String, to: String, price: u32) -> (r: Self)
        ensures
            r@ == spec_trip(from@, to@, price as nat),
    {
        Trip { from, to, price }
    }

    pub fn matches(&self, city: &str) -> (r: bool)
        ensures
            r == touches(self@, city@),
    {
        let c = String::from_str(city);
        self.from == c || self.to == c
    }

    /// The agency's catalogue.
    pub fn mocks() -> (r: Vec<Self>)
        ensures
            trips_view(r@) == catalogue(),
    {
        let mut r: Vec<Trip> = Vec::new();
        r.push(Trip::new(String::from_str("Lisbon"), String::from_str("London"), 200));
        r.push(Trip::new(String::from_str("London"), String::from_str("Berlin"), 400));
        r.push(Trip::new(String::from_str("Berlin"), String::from_str("Paris"), 600));
        r.push(Trip::new(String::from_str("Paris"), String::from_str("Amesterdam"), 800));
        assert(trips_view(r@) =~= catalogue());
        r
    }
}

/// A copy of each trip of `trips`, in order.
pub fn copy_trips(trips: &Vec<Trip>) -> (r: Vec<Trip>)
    ensures
        trips_view(r@) == trips_view(trips@),
{
    let mut r: Vec<Trip> = Vec::new();
    let mut i: usize = 0;
    while i < trips.len()
        invariant
            i <= trips.len(),
            r@.len() == i,
            trips_view(r@) == trips_view(trips@).take(i as int),
        decreases trips.len() - i,
    {
        let t = trips[i].clone();
        assert(t@ == trips@[i as int]@);
        r.push(t);
        i = i + 1;
        assert(trips_view(r@) =~= trips_view(trips@).take(i as int));
    }
    assert(trips_view(trips@).take(i as int) =~= trips_view(trips@));
    r
}

/// A copy of the trip at position `idx` of `trips`, if there is one.
pub fn trip_at(trips: &Vec<Trip>, idx: usize) -> (r: Option<Trip>)
    ensures
        idx < trips@.len() ==> (r matches Some(t) && t@ == trips@[idx as int]@),
        idx >= trips@.len() ==> r is None,
{
    if idx < trips.len() {
        Some(trips[idx].clone())
    } else {
        None
    }
}

/// The catalogue's trips that leave from or go to `city`, in catalogue order.
pub fn search(city: &str) -> (r: Vec<Trip>)
    ensures
        trips_view(r@) == search_results(city@),
{
    let all = Trip::mocks();
    let mut r: Vec<Trip> = Vec::new();
    let mut i: usize = 0;
    while i < all.len()
        invariant
            i <= all.len(),
            trips_view(all@) == catalogue(),
            trips_view(r@) == matching(trips_view(all@).take(i as int), city@),
        decreases all.len() - i,
    {
        let ghost before = trips_view(all@).take(i as int);
        let ghost after = trips_view(all@).take(i + 1);
        assert(after =~= before.push(all@[i as int]@));
        proof {
            before.lemma_filter_push(all@[i as int]@, |t: TripView| touches(t, city@));
        }
        assert(after.last() == all@[i as int]@);
        if all[i].matches(city) {
            r.push(all[i].clone());
            assert(trips_view(r@) =~= matching(before, city@).push(all@[i as int]@));
        }
        assert(matching(after, city@) == trips_view(r@));
        i = i + 1;
    }
    assert(trips_view(all@).take(i as int) =~= trips_view(all@));
    r
}

} // verus!
