use vstd::prelude::*;
use vstd::string::*;

verus! {

/// The parameters of one media query, captured once from configuration.
#[derive(Debug, Clone)]
pub struct Query {
    pub hashtag_id: String,
    pub user_id: String,
    pub fields: String,
    pub access_token: String,
}

impl Query {
    pub fn new(hashtag_id: String, user_id: String, fields: String, access_token: String) -> (r:
        Query)
        ensures
            r.hashtag_id@ == hashtag_id@,
            r.user_id@ == user_id@,
            r.fields@ == fields@,
            r.access_token@ == access_token@,
    {
        Query { hashtag_id, user_id, fields, access_token }
    }

    /// The request URL: the four fields placed, unchanged, into the
    /// endpoint template.
    pub open spec fn spec_request_url(&self) -> Seq<char> {
        "https://graph.facebook.com/"@ + self.hashtag_id@ + "/recent_media?user_id="@
            + self.user_id@ + "&fields="@ + self.fields@ + "&access_token="@
            + self.access_token@
    }

    /// Builds the URL of the recent-media request for this query.
    pub fn request_url(&self) -> (r: String)
        ensures
            r@ == self.spec_request_url(),
    {
        let mut url = String::from_str("https://graph.facebook.com/");
        url.append(self.hashtag_id.as_str());
        url.append("/recent_media?user_id=");
        url.append(self.user_id.as_str());
        url.append("&fields=");
        url.append(self.fields.as_str());
        url.append("&access_token=");
        url.append(self.access_token.as_str());
        url
    }
}

} // verus!
