//! Requests for a city's weather forecast.

use vstd::prelude::*;
use vstd::string::*;

verus! {

/// The address that forecasts are asked from.
pub const API_URL: &'static str = "http://api.openweathermap.org/data/2.5/forecast";

#[derive(Debug, Clone, Copy, PartialEq, Eq, Structural)]
pub enum City {
    BuenosAires,
}

#[derive(Debug, Clone, Copy, PartialEq, Eq, Structural)]
pub enum Country {
    Argentina,
}

impl City {
    /// The country that the city lies in.
    pub open spec fn spec_country(self) -> Country {
        match self {
            City::BuenosAires => Country::Argentina,
        }
    }

    /// The city as the forecast service names it.
    pub open spec fn spec_api_param(self) -> Seq<char> {
        match self {
            City::BuenosAires => "Buenos Aires,ar"@,
        }
    }

    pub fn country(&self) -> (c: Country)
        ensures
            c == self.spec_country(),
    {
        match *self {
            City::BuenosAires => Country::Argentina,
        }
    }

    pub fn to_api_param(&self) -> (name: &'static str)
        ensures
            name@ == self.spec_api_param(),
    {
        match *self {
            City::BuenosAires => "Buenos Aires,ar",
        }
    }
}

/// A request for the forecast of one city.
#[derive(Debug)]
pub struct WeatherRequest {
    pub city: City,
}

impl WeatherRequest {
    pub fn of(city: City) -> (request: Self)
        ensures
            request.city == city,
    {
        WeatherRequest { city }
    }

    /// The address to fetch: the service's address, then the city as the
    /// query `q` and the caller's key as `APPID`, none of them escaped.
    pub open spec fn spec_url(self, api_key: Seq<char>) -> Seq<char> {
        API_URL@ + "?q="@ + self.city.spec_api_param() + "&APPID="@ + api_key
    }

    /// The query that goes with `API_URL`: the city as `q`, the caller's
    /// key as `APPID`, and metric units.
    pub fn query_pairs<'a>(&self, api_key: &'a str) -> (pairs: Vec<(&'static str, &'a str)>)
        ensures
            pairs@.len() == 3,
            pairs@[0].0@ == "q"@ && pairs@[0].1@ == self.city.spec_api_param(),
            pairs@[1].0@ == "APPID"@ && pairs@[1].1@ == api_key@,
            pairs@[2].0@ == "unit"@ && pairs@[2].1@ == "metric"@,
    {
        let mut pairs: Vec<(&'static str, &'a str)> = Vec::new();
        pairs.push(("q", self.city.to_api_param()));
        pairs.push(("APPID", api_key));
        pairs.push(("unit", "metric"));
        pairs
    }

    pub fn into_url(self, api_key: &str) -> (url: String)
        ensures
            url@ == self.spec_url(api_key@),
    {
        let mut url = String::from_str(API_URL);
        url.append("?q=");
        url.append(self.city.to_api_param());
        url.append("&APPID=");
        url.append(api_key);
        url
    }
}

} // verus!
