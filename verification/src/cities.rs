use vstd::prelude::*;
use crate::ext;

verus! {

/// The city names the startup greeting draws from.
pub open spec fn city_names() -> Seq<Seq<char>> {
    seq![
        "Amsterdam"@,
        "Berlin"@,
        "Lisbon"@,
        "Nairobi"@,
        "Osaka"@,
        "Porto"@,
        "Quito"@,
        "Seattle"@,
    ]
}

fn city_list() -> (v: Vec<&'static str>)
    ensures
        v@.len() == city_names().len(),
        forall|i: int| 0 <= i < v@.len() ==> v@[i]@ == city_names()[i],
{
    let v: Vec<&'static str> = vec!["Amsterdam", "Berlin", "Lisbon", "Nairobi", "Osaka", "Porto",
        "Quito", "Seattle"];
    proof {
        assert(v@[0]@ == city_names()[0]);
        assert(v@[1]@ == city_names()[1]);
        assert(v@[2]@ == city_names()[2]);
        assert(v@[3]@ == city_names()[3]);
        assert(v@[4]@ == city_names()[4]);
        assert(v@[5]@ == city_names()[5]);
        assert(v@[6]@ == city_names()[6]);
        assert(v@[7]@ == city_names()[7]);
    }
    v
}

/// One of the fixed city names, drawn at random.
pub fn random_city() -> (r: String)
    ensures
        city_names().contains(r@),
{
    let list = city_list();
    let idx = ext::random_below(list.len());
    let name = list[idx];
    let r = name.to_owned();
    proof {
        assert(r@ == city_names()[idx as int]);
    }
    r
}

} // verus!
