//! The request dispatcher's verified core: for each API operation it builds
//! the complete request — method, URL, authentication headers and JSON body
//! — as a `RequestPlan`. The embedding program performs the HTTP exchange.

use vstd::prelude::*;
use crate::json::{
    JVal, JsonMap, JsonValue, has_key, jtext, jv_view, jv_view_list, spec_extend, to_json_string,
};
use crate::signer::{base64_of, sign, signature_chars, encode_file_data};
use crate::text::{dec_nat, u64_to_decimal};

verus! {

/// The HTTP method of a request.
#[derive(Clone, Copy, PartialEq, Eq, Structural)]
pub enum HttpMethod {
    Get,
    Post,
    Put,
    Delete,
}

impl HttpMethod {
    /// The method name as sent on the wire.
    pub fn name(&self) -> (r: &'static str)
        ensures
            *self is Get ==> r@ == "GET"@,
            *self is Post ==> r@ == "POST"@,
            *self is Put ==> r@ == "PUT"@,
            *self is Delete ==> r@ == "DELETE"@,
    {
        match self {
            HttpMethod::Get => "GET",
            HttpMethod::Post => "POST",
            HttpMethod::Put => "PUT",
            HttpMethod::Delete => "DELETE",
        }
    }
}

/// A client instance: immutable credentials and configuration.
pub struct Client {
    /// Client id provided with the account.
    pub client_id: String,
    /// Client secret provided with the account; the signing key material.
    pub client_secret: String,
    /// Username provided with the account.
    pub username: String,
    /// Api key provided with the account.
    pub api_key: String,
    /// Base URL of the API.
    pub url: String,
    /// Api version.
    pub api_version: String,
    /// Request timeout in seconds.
    pub api_timeout: u64,
}

/// A fully determined request, ready to be sent.
pub struct RequestPlan {
    pub method: HttpMethod,
    pub url: String,
    pub headers: Vec<(String, String)>,
    pub body: String,
    pub timeout_secs: u64,
}

impl RequestPlan {
    /// The headers as pairs of character strings.
    pub open spec fn headers_view(&self) -> Seq<(Seq<char>, Seq<char>)> {
        self.headers@.map_values(|h: (String, String)| (h.0@, h.1@))
    }
}

/// The target URL of a request: base URL, API version, the fixed `/partner`
/// segment, then the resource path.
pub open spec fn spec_api_url(c: Client, endpoint: Seq<char>) -> Seq<char> {
    c.url@ + c.api_version@ + "/partner"@ + endpoint
}

/// The seven headers of every request, in order.
pub open spec fn spec_headers(c: Client, ts: nat, sig: Seq<char>) -> Seq<(Seq<char>, Seq<char>)> {
    seq![
        ("User-Agent"@, "Rust Veryfi-Rust/1.0.0"@),
        ("Accept"@, "application/json"@),
        ("Content-Type"@, "application/json"@),
        ("Client-Id"@, c.client_id@),
        ("Authorization"@, "apikey "@ + c.username@ + ":"@ + c.api_key@),
        ("X-Veryfi-Request-Timestamp"@, dec_nat(ts)),
        ("X-Veryfi-Request-Signature"@, sig),
    ]
}

/// What the plan of a request must be, given the client, the method, the
/// resource path, the payload fields and the timestamp: the method; the
/// target URL; the seven headers, with the timestamp header and the signed
/// canonical string agreeing on `ts`; the payload's JSON text as the body;
/// and the configured timeout.
pub open spec fn plan_ok(
    r: RequestPlan,
    c: Client,
    m: HttpMethod,
    endpoint: Seq<char>,
    entries: Seq<(Seq<char>, JVal)>,
    ts: nat,
) -> bool {
    &&& r.method == m
    &&& r.url@ == spec_api_url(c, endpoint)
    &&& r.headers_view() == spec_headers(c, ts, signature_chars(c.client_secret@, entries, ts))
    &&& r.body@ == jtext(JVal::Obj(entries))
    &&& r.timeout_secs == c.api_timeout
}

/// The fixed list of default expense categories, substituted when a local
/// document is processed with an empty category list.
pub open spec fn default_category_names() -> Seq<Seq<char>> {
    seq![
        "Advertising & Marketing"@,
        "Automotive"@,
        "Bank Charges & Fees"@,
        "Legal & Professional Services"@,
        "Insurance"@,
        "Meals & Entertainment"@,
        "Office Supplies & Software"@,
        "Taxes & Licenses"@,
        "Travel"@,
        "Rent & Lease"@,
        "Repairs & Maintenance"@,
        "Payroll"@,
        "Utilities"@,
        "Job Supplies"@,
        "Grocery"@,
    ]
}

/// The payload of a URL-based processing request: the base fields, the
/// optional fields exactly when they carry a value, then the caller's
/// additional parameters.
pub open spec fn url_payload(
    file_url: Seq<char>,
    categories: Seq<Seq<char>>,
    auto_delete: bool,
    boost_mode: int,
    external_id: Seq<char>,
    max_pages: int,
    file_urls: Seq<Seq<char>>,
    extra: Seq<(Seq<char>, JVal)>,
) -> Seq<(Seq<char>, JVal)> {
    let base = seq![
        ("auto_delete"@, JVal::Bool(auto_delete)),
        ("boost_mode"@, JVal::Int(boost_mode)),
        ("categories"@, JVal::Arr(categories.map_values(|s: Seq<char>| JVal::Str(s)))),
    ];
    let with_ext = if external_id.len() > 0 {
        base.push(("external_id"@, JVal::Str(external_id)))
    } else {
        base
    };
    let with_url = with_ext.push(("file_url"@, JVal::Str(file_url)));
    let with_urls = if file_urls.len() > 0 {
        with_url.push(("file_urls"@, JVal::Arr(file_urls.map_values(|s: Seq<char>| JVal::Str(s)))))
    } else {
        with_url
    };
    let with_pages = if max_pages > 0 {
        with_urls.push(("max_pages_to_process"@, JVal::Int(max_pages)))
    } else {
        with_urls
    };
    spec_extend(with_pages, extra)
}

/// The payload of a local-document processing request: name and base64 data
/// of the file, the categories (the default list when none are given),
/// the deletion flag, then the caller's additional parameters.
pub open spec fn document_payload(
    file_name: Seq<char>,
    file_data: Seq<u8>,
    categories: Seq<Seq<char>>,
    auto_delete: bool,
    extra: Seq<(Seq<char>, JVal)>,
) -> Seq<(Seq<char>, JVal)> {
    let cats = if categories.len() == 0 {
        default_category_names()
    } else {
        categories
    };
    spec_extend(
        seq![
            ("file_name"@, JVal::Str(file_name)),
            ("file_data"@, JVal::Str(base64_of(file_data))),
            ("categories"@, JVal::Arr(cats.map_values(|s: Seq<char>| JVal::Str(s)))),
            ("auto_delete"@, JVal::Bool(auto_delete)),
        ],
        extra,
    )
}

/// Turns a list of strings into the corresponding JSON string values.
fn strs_to_json_values(items: &Vec<&str>) -> (r: Vec<JsonValue>)
    ensures
        jv_view_list(r@) == items@.map_values(|s: &str| JVal::Str(s@)),
{
    let mut r: Vec<JsonValue> = Vec::new();
    let n = items.len();
    let mut i: usize = 0;
    proof {
        assert(jv_view_list(r@) =~= items@.take(0).map_values(|s: &str| JVal::Str(s@)));
    }
    while i < n
        invariant
            i <= n,
            n == items@.len(),
            jv_view_list(r@) == items@.take(i as int).map_values(|s: &str| JVal::Str(s@)),
        decreases n - i,
    {
        let ghost prev = r@;
        r.push(JsonValue::Str(String::from_str(items[i])));
        proof {
            assert(r@.drop_last() =~= prev);
            assert(jv_view_list(r@) == jv_view_list(prev).push(jv_view(r@.last())));
            assert(items@.take(i + 1 as int).map_values(|s: &str| JVal::Str(s@)) =~= items@.take(
                i as int,
            ).map_values(|s: &str| JVal::Str(s@)).push(JVal::Str(items@[i as int]@)));
            assert(jv_view_list(r@) =~= items@.take(i + 1 as int).map_values(
                |s: &str| JVal::Str(s@),
            ));
        }
        i = i + 1;
    }
    proof {
        assert(items@.take(n as int) =~= items@);
    }
    r
}

impl Client {
    /// Computes the signature for a payload and timestamp with this
    /// client's secret.
    pub fn generate_signature(&self, payload_params: &JsonMap, timestamp: u64) -> (r: String)
        ensures
            r@ == signature_chars(self.client_secret@, payload_params@, timestamp as nat),
    {
        sign(self.client_secret.as_str(), payload_params, timestamp)
    }

    /// The default categories used when a local document is processed with
    /// an empty category list.
    pub fn get_categories(&self) -> (r: Vec<&'static str>)
        ensures
            r@.len() == default_category_names().len(),
            forall|i: int| 0 <= i < r@.len() ==> r@[i]@ == default_category_names()[i],
    {
        let mut r: Vec<&'static str> = Vec::new();
        r.push("Advertising & Marketing");
        r.push("Automotive");
        r.push("Bank Charges & Fees");
        r.push("Legal & Professional Services");
        r.push("Insurance");
        r.push("Meals & Entertainment");
        r.push("Office Supplies & Software");
        r.push("Taxes & Licenses");
        r.push("Travel");
        r.push("Rent & Lease");
        r.push("Repairs & Maintenance");
        r.push("Payroll");
        r.push("Utilities");
        r.push("Job Supplies");
        r.push("Grocery");
        r
    }

    /// Builds the complete request for one API operation: signs the payload
    /// with the given timestamp, assembles URL, headers and JSON body.
    pub fn request_plan(
        &self,
        method: HttpMethod,
        endpoint_name: &str,
        request_arguments: &JsonMap,
        timestamp: u64,
    ) -> (r: RequestPlan)
        ensures
            plan_ok(r, *self, method, endpoint_name@, request_arguments@, timestamp as nat),
    {
        let signature = self.generate_signature(request_arguments, timestamp);
        let mut url = String::new();
        url.append(self.url.as_str());
        url.append(self.api_version.as_str());
        url.append("/partner");
        url.append(endpoint_name);
        let mut auth = String::from_str("apikey ");
        auth.append(self.username.as_str());
        auth.append(":");
        auth.append(self.api_key.as_str());
        let mut headers: Vec<(String, String)> = Vec::new();
        headers.push((String::from_str("User-Agent"), String::from_str("Rust Veryfi-Rust/1.0.0")));
        headers.push((String::from_str("Accept"), String::from_str("application/json")));
        headers.push((String::from_str("Content-Type"), String::from_str("application/json")));
        headers.push((String::from_str("Client-Id"), self.client_id.clone()));
        headers.push((String::from_str("Authorization"), auth));
        headers.push((String::from_str("X-Veryfi-Request-Timestamp"), u64_to_decimal(timestamp)));
        headers.push((String::from_str("X-Veryfi-Request-Signature"), signature));
        let body = to_json_string(request_arguments);
        let r = RequestPlan {
            method,
            url,
            headers,
            body,
            timeout_secs: self.api_timeout,
        };
        proof {
            assert(r.url@ =~= spec_api_url(*self, endpoint_name@));
            assert(r.headers_view() =~= spec_headers(
                *self,
                timestamp as nat,
                signature_chars(self.client_secret@, request_arguments@, timestamp as nat),
            ));
        }
        r
    }

    /// The request that lists the processed documents.
    pub fn get_documents_request(&self, timestamp: u64) -> (r: RequestPlan)
        ensures
            plan_ok(
                r,
                *self,
                HttpMethod::Get,
                "/documents/"@,
                Seq::<(Seq<char>, JVal)>::empty(),
                timestamp as nat,
            ),
    {
        let request_arguments = JsonMap::new();
        self.request_plan(HttpMethod::Get, "/documents/", &request_arguments, timestamp)
    }

    /// The request that retrieves the document with the given id.
    pub fn get_document_request(&self, document_id: &str, timestamp: u64) -> (r: RequestPlan)
        ensures
            plan_ok(
                r,
                *self,
                HttpMethod::Get,
                "/documents/"@ + document_id@ + "/"@,
                seq![("id"@, JVal::Str(document_id@))],
                timestamp as nat,
            ),
    {
        let endpoint_name = id_endpoint(document_id);
        let mut request_arguments = JsonMap::new();
        request_arguments.insert(String::from_str("id"), JsonValue::Str(String::from_str(document_id)));
        proof {
            assert(request_arguments@ =~= seq![("id"@, JVal::Str(document_id@))]);
        }
        self.request_plan(HttpMethod::Get, endpoint_name.as_str(), &request_arguments, timestamp)
    }

    /// The request that deletes the document with the given id; its payload
    /// is the single field `id`.
    pub fn delete_document_request(&self, document_id: &str, timestamp: u64) -> (r: RequestPlan)
        ensures
            plan_ok(
                r,
                *self,
                HttpMethod::Delete,
                "/documents/"@ + document_id@ + "/"@,
                seq![("id"@, JVal::Str(document_id@))],
                timestamp as nat,
            ),
    {
        let endpoint_name = id_endpoint(document_id);
        let mut request_arguments = JsonMap::new();
        request_arguments.insert(String::from_str("id"), JsonValue::Str(String::from_str(document_id)));
        proof {
            assert(request_arguments@ =~= seq![("id"@, JVal::Str(document_id@))]);
        }
        self.request_plan(HttpMethod::Delete, endpoint_name.as_str(), &request_arguments, timestamp)
    }

    /// The request that submits a local document for processing. The file's
    /// contents are base64-encoded into the payload; an empty category list
    /// is replaced by the default categories.
    pub fn process_document_request(
        &self,
        file_name: &str,
        file_data: &Vec<u8>,
        categories: Vec<&str>,
        delete_after_processing: bool,
        additional_parameters: JsonMap,
        timestamp: u64,
    ) -> (r: RequestPlan)
        ensures
            plan_ok(
                r,
                *self,
                HttpMethod::Post,
                "/documents/"@,
                document_payload(
                    file_name@,
                    file_data@,
                    categories@.map_values(|s: &str| s@),
                    delete_after_processing,
                    additional_parameters@,
                ),
                timestamp as nat,
            ),
    {
        let ghost given = categories@.map_values(|s: &str| s@);
        let cats: Vec<JsonValue> = if categories.is_empty() {
            let defaults = self.get_categories();
            let converted = strs_to_json_values(&defaults);
            proof {
                assert(jv_view_list(converted@) =~= default_category_names().map_values(
                    |s: Seq<char>| JVal::Str(s),
                ));
            }
            converted
        } else {
            let converted = strs_to_json_values(&categories);
            proof {
                assert(jv_view_list(converted@) =~= given.map_values(
                    |s: Seq<char>| JVal::Str(s),
                ));
            }
            converted
        };
        let ghost cat_names = if given.len() == 0 {
            default_category_names()
        } else {
            given
        };
        let image_data = encode_file_data(file_data);
        proof {
            reveal_strlit("file_name");
            reveal_strlit("file_data");
            reveal_strlit("categories");
            reveal_strlit("auto_delete");
            assert(("file_name"@)[5] == 'n' && ("file_data"@)[5] == 'd');
            assert(("file_name"@) != ("file_data"@));
            assert(("file_name"@).len() == 9 && ("file_data"@).len() == 9 && ("categories"@).len()
                == 10 && ("auto_delete"@).len() == 11);
        }
        let ghost e1 = ("file_name"@, JVal::Str(file_name@));
        let ghost e2 = ("file_data"@, JVal::Str(base64_of(file_data@)));
        let ghost e3 = ("categories"@, JVal::Arr(cat_names.map_values(|s: Seq<char>| JVal::Str(s))));
        let ghost e4 = ("auto_delete"@, JVal::Bool(delete_after_processing));
        let mut request_arguments = JsonMap::new();
        request_arguments.insert(
            String::from_str("file_name"),
            JsonValue::Str(String::from_str(file_name)),
        );
        proof {
            assert(request_arguments@ =~= seq![e1]);
        }
        request_arguments.insert(String::from_str("file_data"), JsonValue::Str(image_data));
        proof {
            assert(!has_key(seq![e1], "file_data"@));
            assert(request_arguments@ =~= seq![e1, e2]);
        }
        request_arguments.insert(String::from_str("categories"), JsonValue::Arr(cats));
        proof {
            assert(!has_key(seq![e1, e2], "categories"@));
            assert(request_arguments@ =~= seq![e1, e2, e3]);
        }
        request_arguments.insert(
            String::from_str("auto_delete"),
            JsonValue::Bool(delete_after_processing),
        );
        proof {
            assert(!has_key(seq![e1, e2, e3], "auto_delete"@));
            assert(request_arguments@ =~= seq![e1, e2, e3, e4]);
        }
        request_arguments.extend(additional_parameters);
        self.request_plan(HttpMethod::Post, "/documents/", &request_arguments, timestamp)
    }

    /// The request that submits one or more publicly reachable file URLs
    /// for processing. The optional fields — external id, additional URLs,
    /// page limit — appear in the payload exactly when they carry a value;
    /// the category list is passed through as given, even when empty.
    pub fn process_document_url_request(
        &self,
        file_url: &str,
        categories: Vec<&str>,
        delete_after_processing: bool,
        boost_mode: i32,
        external_id: &str,
        max_pages_to_process: i32,
        file_urls: Vec<&str>,
        additional_parameters: JsonMap,
        timestamp: u64,
    ) -> (r: RequestPlan)
        ensures
            plan_ok(
                r,
                *self,
                HttpMethod::Post,
                "/documents/"@,
                url_payload(
                    file_url@,
                    categories@.map_values(|s: &str| s@),
                    delete_after_processing,
                    boost_mode as int,
                    external_id@,
                    max_pages_to_process as int,
                    file_urls@.map_values(|s: &str| s@),
                    additional_parameters@,
                ),
                timestamp as nat,
            ),
    {
        proof {
            reveal_strlit("auto_delete");
            reveal_strlit("boost_mode");
            reveal_strlit("categories");
            reveal_strlit("external_id");
            reveal_strlit("file_url");
            reveal_strlit("file_urls");
            reveal_strlit("max_pages_to_process");
        }
        let ghost cat_names = categories@.map_values(|s: &str| s@);
        let ghost url_names = file_urls@.map_values(|s: &str| s@);
        let cats = strs_to_json_values(&categories);
        proof {
            assert(jv_view_list(cats@) =~= cat_names.map_values(|s: Seq<char>| JVal::Str(s)));
        }
        proof {
            assert(("boost_mode"@)[0] == 'b' && ("categories"@)[0] == 'c');
            assert(("boost_mode"@) != ("categories"@));
            assert(("auto_delete"@)[0] == 'a' && ("external_id"@)[0] == 'e');
            assert(("auto_delete"@) != ("external_id"@));
            assert(("auto_delete"@).len() == 11 && ("boost_mode"@).len() == 10 && (
            "categories"@).len() == 10 && ("external_id"@).len() == 11 && ("file_url"@).len() == 8
                && ("file_urls"@).len() == 9 && ("max_pages_to_process"@).len() == 20);
        }
        let ghost e1 = ("auto_delete"@, JVal::Bool(delete_after_processing));
        let ghost e2 = ("boost_mode"@, JVal::Int(boost_mode as int));
        let ghost e3 = ("categories"@, JVal::Arr(cat_names.map_values(|s: Seq<char>| JVal::Str(s))));
        let ghost base = seq![e1, e2, e3];
        let mut request_arguments = JsonMap::new();
        request_arguments.insert(
            String::from_str("auto_delete"),
            JsonValue::Bool(delete_after_processing),
        );
        proof {
            assert(request_arguments@ =~= seq![e1]);
        }
        request_arguments.insert(
            String::from_str("boost_mode"),
            JsonValue::Int(boost_mode as i64),
        );
        proof {
            assert(!has_key(seq![e1], "boost_mode"@));
            assert(request_arguments@ =~= seq![e1, e2]);
        }
        request_arguments.insert(String::from_str("categories"), JsonValue::Arr(cats));
        proof {
            assert(!has_key(seq![e1, e2], "categories"@));
            assert(request_arguments@ =~= base);
        }
        if !external_id.is_empty() {
            request_arguments.insert(
                String::from_str("external_id"),
                JsonValue::Str(String::from_str(external_id)),
            );
            proof {
                assert(!has_key(base, "external_id"@));
                assert(request_arguments@ =~= base.push(("external_id"@, JVal::Str(external_id@))));
            }
        }
        let ghost with_ext = if external_id@.len() > 0 {
            base.push(("external_id"@, JVal::Str(external_id@)))
        } else {
            base
        };
        request_arguments.insert(
            String::from_str("file_url"),
            JsonValue::Str(String::from_str(file_url)),
        );
        let ghost with_url = with_ext.push(("file_url"@, JVal::Str(file_url@)));
        proof {
            assert(!has_key(with_ext, "file_url"@));
            assert(request_arguments@ =~= with_url);
        }
        if !file_urls.is_empty() {
            let urls = strs_to_json_values(&file_urls);
            proof {
                assert(jv_view_list(urls@) =~= url_names.map_values(|s: Seq<char>| JVal::Str(s)));
            }
            request_arguments.insert(String::from_str("file_urls"), JsonValue::Arr(urls));
            proof {
                assert(!has_key(with_url, "file_urls"@));
                assert(request_arguments@ =~= with_url.push(
                    ("file_urls"@, JVal::Arr(url_names.map_values(|s: Seq<char>| JVal::Str(s)))),
                ));
            }
        }
        let ghost with_urls = if url_names.len() > 0 {
            with_url.push(
                ("file_urls"@, JVal::Arr(url_names.map_values(|s: Seq<char>| JVal::Str(s)))),
            )
        } else {
            with_url
        };
        if max_pages_to_process > 0 {
            request_arguments.insert(
                String::from_str("max_pages_to_process"),
                JsonValue::Int(max_pages_to_process as i64),
            );
            proof {
                assert(!has_key(with_urls, "max_pages_to_process"@));
                assert(request_arguments@ =~= with_urls.push(
                    ("max_pages_to_process"@, JVal::Int(max_pages_to_process as int)),
                ));
            }
        }
        let ghost with_pages = if max_pages_to_process as int > 0 {
            with_urls.push(("max_pages_to_process"@, JVal::Int(max_pages_to_process as int)))
        } else {
            with_urls
        };
        proof {
            assert(request_arguments@ == with_pages);
        }
        request_arguments.extend(additional_parameters);
        self.request_plan(HttpMethod::Post, "/documents/", &request_arguments, timestamp)
    }

    /// The request that updates a document: exactly the caller's fields are
    /// sent, nothing is injected.
    pub fn update_document_request(
        &self,
        document_id: &str,
        parameters_to_update: &JsonMap,
        timestamp: u64,
    ) -> (r: RequestPlan)
        ensures
            plan_ok(
                r,
                *self,
                HttpMethod::Put,
                "/documents/"@ + document_id@ + "/"@,
                parameters_to_update@,
                timestamp as nat,
            ),
    {
        let endpoint_name = id_endpoint(document_id);
        self.request_plan(HttpMethod::Put, endpoint_name.as_str(), parameters_to_update, timestamp)
    }
}

/// The resource path `/documents/<id>/`.
fn id_endpoint(document_id: &str) -> (r: String)
    ensures
        r@ == "/documents/"@ + document_id@ + "/"@,
{
    let mut r = String::from_str("/documents/");
    r.append(document_id);
    r.append("/");
    proof {
        assert(r@ =~= "/documents/"@ + document_id@ + "/"@);
    }
    r
}

} // verus!
